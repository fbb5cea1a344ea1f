use zexp::config::ConfigTable;
use zexp::config::ConfigValue;
use zexp::error::ScriptError;
use zexp::loaders::OTAWAConfigLoader;
use zexp::loaders::TACLeConfigLoader;
use zexp::script::find_incomplete;
use zexp::script::otawa_tacle_from_config;
use zexp::script::otawa_tacle_script;
use zexp::script::ConfigLoaderTrait;
use zexp::script::MainLoaderTrait;
use zexp::script::Script;
use zexp::task::Task;

const EXAMPLE: &str = r#"
CMD = "$otawa_app $tacle_exec $tacle_entry_point $otawa_opts"

[OTAWA]
PROVIDED_VARS = ["$otawa_app", "$otawa_opts"]
app_path = "/opt/otawa/bin/owcet"
props = ["otawa::PROCESSOR_PATH=arm.xml"]
log_level = "info"

[TACLE]
PROVIDED_VARS = ["$tacle_exec", "$tacle_entry_point"]
tacle_desc_path = "/home/acac/rust-zexp/scripts/otawa-tacle-exp/tacle.toml"
tacle_run_benchset = ["kernel"]
"#;

const SUITE: &str = r#"
root_path = "/opt/tacle"

[[benchsets]]
name = "kernel"
path_from_root = "kernel"

[[benchsets.benchs]]
name = "binarysearch"
exec = "binarysearch/binarysearch.elf"
entry_point = "binarysearch_main"

[[benchsets.benchs]]
name = "bsort"
exec = "bsort/bsort.elf"
entry_point = "bsort_main"

[[benchsets]]
name = "sequential"
path_from_root = "sequential"

[[benchsets.benchs]]
name = "adpcm_dec"
exec = "adpcm_dec/adpcm_dec.elf"
entry_point = "adpcm_dec_main"
"#;

/// A provider that resolves its names to fixed tokens.
struct Fixed {
    vars: Vec<String>,
    terms: Vec<String>,
}

impl ConfigLoaderTrait for Fixed {
    fn provided_vars(&self) -> Vec<String> {
        self.vars.clone()
    }

    fn get_terms(&self, var_name: &str) -> Result<Vec<String>, ScriptError> {
        if var_name == "$broken" {
            Err(ScriptError::MissingField("broken".to_string()))
        } else if self.vars.iter().any(|v| v == var_name) {
            Ok(self.terms.clone())
        } else {
            Err(ScriptError::UnknownPlaceholder(var_name.to_string()))
        }
    }
}

/// A primary provider with pairs of values for `$exec` and `$entry`.
struct Pairs {
    vars: Vec<String>,
    pairs: Vec<(String, String)>,
}

impl MainLoaderTrait for Pairs {
    fn provided_vars(&self) -> Vec<String> {
        self.vars.clone()
    }

    fn fill(&self, cmd: &Vec<String>) -> Result<Vec<Task>, ScriptError> {
        if cmd.is_empty() {
            return Err(ScriptError::EmptyCommand);
        }
        let mut tasks = Vec::new();
        for (exec, entry) in &self.pairs {
            let tokens: Vec<String> = cmd
                .iter()
                .map(|t| match t.as_str() {
                    "$exec" => exec.clone(),
                    "$entry" => entry.clone(),
                    _ => t.clone(),
                })
                .collect();
            tasks.push(Task {
                name: format!("{}-{}", exec, entry),
                cmd: tokens[0].clone(),
                args: tokens[1..].to_vec(),
            });
        }
        Ok(tasks)
    }
}

fn words(list: &[&str]) -> Vec<String> {
    list.iter().map(|s| s.to_string()).collect()
}

fn fixed(vars: &[&str], terms: &[&str]) -> Fixed {
    Fixed { vars: words(vars), terms: words(terms) }
}

fn pairs(vars: &[&str], list: &[(&str, &str)]) -> Pairs {
    Pairs {
        vars: words(vars),
        pairs: list.iter().map(|(a, b)| (a.to_string(), b.to_string())).collect(),
    }
}

fn one() -> Pairs {
    pairs(&[], &[("only", "one")])
}

fn task(name: &str, cmd: &str, args: &[&str]) -> Task {
    Task { name: name.to_string(), cmd: cmd.to_string(), args: words(args) }
}

fn script(cmd: &str) -> Script<Fixed, Pairs> {
    Script::new(ConfigTable {
        entries: vec![("CMD".to_string(), ConfigValue::Str(cmd.to_string()))],
    })
}

fn example_tasks() -> Vec<Task> {
    vec![
        task(
            "binarysearch",
            "/opt/otawa/bin/owcet",
            &[
                "/opt/tacle/kernel/binarysearch/binarysearch.elf",
                "binarysearch_main",
                "--add-prop",
                "otawa::PROCESSOR_PATH=arm.xml",
                "--log",
                "info",
            ],
        ),
        task(
            "bsort",
            "/opt/otawa/bin/owcet",
            &[
                "/opt/tacle/kernel/bsort/bsort.elf",
                "bsort_main",
                "--add-prop",
                "otawa::PROCESSOR_PATH=arm.xml",
                "--log",
                "info",
            ],
        ),
    ]
}

#[test]
fn test_otawa_loader() {
    let script_path = "/home/acac/rust-zexp/scripts/otawa-tacle-exp/example.toml";
    let mut script = otawa_tacle_script(EXAMPLE, SUITE).unwrap();
    let cmds = script.gen_cmd().unwrap();
    println!("{}: {:?}", script_path, cmds);
    assert_eq!(cmds, example_tasks());
}

#[test]
fn two_providers_resolve_one_task() {
    let mut s = script("$app $opts");
    s.register_main_loader(one()).unwrap();
    s.register_loader(fixed(&["$app"], &["echo"])).unwrap();
    s.register_loader(fixed(&["$opts"], &["hello"])).unwrap();
    let tasks = s.gen_cmd().unwrap();
    assert_eq!(tasks, vec![task("only-one", "echo", &["hello"])]);
    assert_eq!(tasks[0].output_file(), "only-one.out");
}

#[test]
fn two_claims_of_one_name_are_refused() {
    let mut s = script("$x");
    s.register_main_loader(one()).unwrap();
    s.register_loader(fixed(&["$x"], &["a"])).unwrap();
    assert_eq!(
        s.register_loader(fixed(&["$x"], &["b"])),
        Err(ScriptError::DuplicateClaim("$x".to_string()))
    );
    assert_eq!(s.loader_count(), 1);
    assert_eq!(s.gen_cmd(), Ok(vec![task("only-one", "a", &[])]));
}

#[test]
fn the_first_name_that_clashes_is_reported() {
    let mut s = script("$a");
    s.register_loader(fixed(&["$a", "$b"], &["x"])).unwrap();
    s.register_loader(fixed(&["$c"], &["y"])).unwrap();
    assert_eq!(
        s.register_loader(fixed(&["$d", "$c", "$a"], &["z"])),
        Err(ScriptError::DuplicateClaim("$c".to_string()))
    );
    assert_eq!(s.loader_count(), 2);
}

#[test]
fn a_claim_of_the_primary_provider_counts_too() {
    let mut s = script("$exec");
    s.register_main_loader(pairs(&["$exec", "$entry"], &[("a", "x")])).unwrap();
    assert_eq!(
        s.register_loader(fixed(&["$app", "$entry"], &["z"])),
        Err(ScriptError::DuplicateClaim("$entry".to_string()))
    );
    assert_eq!(s.loader_count(), 0);
}

#[test]
fn a_primary_provider_may_not_claim_what_another_claims() {
    let mut s = script("$exec");
    s.register_loader(fixed(&["$exec"], &["z"])).unwrap();
    assert_eq!(
        s.register_main_loader(pairs(&["$entry", "$exec"], &[("a", "x")])),
        Err(ScriptError::DuplicateClaim("$exec".to_string()))
    );
    assert!(!s.has_main_loader());
    assert_eq!(s.gen_cmd(), Err(ScriptError::MissingMainLoader));
}

#[test]
fn a_new_primary_provider_takes_the_place_of_the_old() {
    let mut s = script("run $exec");
    s.register_main_loader(pairs(&["$exec"], &[("a", "x")])).unwrap();
    s.register_main_loader(pairs(&["$exec"], &[("b", "y"), ("c", "z")])).unwrap();
    assert!(s.has_main_loader());
    assert_eq!(s.gen_cmd(), Ok(vec![task("b-y", "run", &["b"]), task("c-z", "run", &["c"])]));
}

#[test]
fn pairs_stay_together() {
    let mut s = script("run $exec --entry $entry");
    s.register_main_loader(pairs(&["$exec", "$entry"], &[("a", "x"), ("b", "y"), ("c", "z")]))
        .unwrap();
    assert_eq!(
        s.gen_cmd(),
        Ok(vec![
            task("a-x", "run", &["a", "--entry", "x"]),
            task("b-y", "run", &["b", "--entry", "y"]),
            task("c-z", "run", &["c", "--entry", "z"]),
        ])
    );
}

#[test]
fn expanding_twice_gives_the_same_tasks() {
    let mut s = otawa_tacle_script(EXAMPLE, SUITE).unwrap();
    let first = s.gen_cmd();
    let second = s.gen_cmd();
    assert_eq!(first, second);
    assert_eq!(first, Ok(example_tasks()));
    let mut again = otawa_tacle_script(EXAMPLE, SUITE).unwrap();
    assert_eq!(again.gen_cmd(), first);
}

#[test]
fn every_task_of_an_expansion_is_complete() {
    let mut s = otawa_tacle_script(EXAMPLE, SUITE).unwrap();
    let tasks = s.gen_cmd().unwrap();
    assert!(!tasks.is_empty());
    for t in &tasks {
        assert!(t.is_completed());
        assert!(!t.cmd.contains('$'));
        assert!(!t.args.iter().any(|a| a.contains('$')));
    }
}

#[test]
fn a_placeholder_that_nobody_claims_fails_the_expansion() {
    let mut s = script("$app $nobody $neither");
    s.register_main_loader(one()).unwrap();
    s.register_loader(fixed(&["$app"], &["echo"])).unwrap();
    assert_eq!(s.gen_cmd(), Err(ScriptError::UnresolvedPlaceholder("$nobody".to_string())));
}

#[test]
fn an_unclaimed_placeholder_is_found_before_any_provider_is_asked() {
    let mut s = script("$broken $nobody");
    s.register_main_loader(one()).unwrap();
    s.register_loader(fixed(&["$broken"], &["x"])).unwrap();
    assert_eq!(s.gen_cmd(), Err(ScriptError::UnresolvedPlaceholder("$nobody".to_string())));
}

#[test]
fn a_provider_that_fails_fails_the_expansion() {
    let mut s = script("echo $broken");
    s.register_main_loader(one()).unwrap();
    s.register_loader(fixed(&["$broken"], &["x"])).unwrap();
    assert_eq!(s.gen_cmd(), Err(ScriptError::MissingField("broken".to_string())));
    assert_eq!(s.fill_static_vars(), Err(ScriptError::MissingField("broken".to_string())));
}

#[test]
fn literal_tokens_stay_where_they_are() {
    let mut s = script("  nice -n 5 $app  --verbose $opts end ");
    s.register_main_loader(one()).unwrap();
    s.register_loader(fixed(&["$app"], &["echo"])).unwrap();
    s.register_loader(fixed(&["$opts"], &["-a", "-b"])).unwrap();
    assert_eq!(
        s.fill_static_vars(),
        Ok(words(&["nice", "-n", "5", "echo", "--verbose", "-a", "-b", "end"]))
    );
    assert_eq!(
        s.gen_cmd(),
        Ok(vec![task("only-one", "nice", &["-n", "5", "echo", "--verbose", "-a", "-b", "end"])])
    );
}

#[test]
fn fill_static_vars_leaves_what_no_loader_claims() {
    let mut s = script("$app $exec $nobody");
    s.register_main_loader(pairs(&["$exec"], &[("a", "x")])).unwrap();
    s.register_loader(fixed(&["$app"], &["echo", "-n"])).unwrap();
    assert_eq!(s.fill_static_vars(), Ok(words(&["echo", "-n", "$exec", "$nobody"])));
}

#[test]
fn a_placeholder_may_stand_for_no_token() {
    let mut s = script("echo $nothing done");
    s.register_main_loader(one()).unwrap();
    s.register_loader(fixed(&["$nothing"], &[])).unwrap();
    assert_eq!(s.gen_cmd(), Ok(vec![task("only-one", "echo", &["done"])]));
}

#[test]
fn a_sigil_within_a_token_makes_the_task_incomplete() {
    let mut s = script("echo a$b c");
    s.register_main_loader(one()).unwrap();
    assert_eq!(
        s.gen_cmd(),
        Err(ScriptError::IncompleteTask {
            name: "only-one".to_string(),
            remaining_args: words(&["a$b", "c"])
        })
    );
}

#[test]
fn a_sigil_in_a_value_makes_the_task_incomplete() {
    let mut s = script("$app x");
    s.register_main_loader(one()).unwrap();
    s.register_loader(fixed(&["$app"], &["ec$ho"])).unwrap();
    assert_eq!(
        s.gen_cmd(),
        Err(ScriptError::IncompleteTask {
            name: "only-one".to_string(),
            remaining_args: words(&["x"])
        })
    );
}

#[test]
fn without_a_primary_provider_nothing_is_expanded() {
    let mut s = script("$app");
    s.register_loader(fixed(&["$app"], &["echo"])).unwrap();
    assert_eq!(s.gen_cmd(), Err(ScriptError::MissingMainLoader));
}

#[test]
fn the_command_must_be_a_string_under_its_key() {
    let mut none: Script<Fixed, Pairs> = Script::new(ConfigTable::new());
    none.register_main_loader(one()).unwrap();
    assert_eq!(none.gen_cmd(), Err(ScriptError::MissingField("CMD".to_string())));
    assert_eq!(none.fill_static_vars(), Err(ScriptError::MissingField("CMD".to_string())));
    let mut list: Script<Fixed, Pairs> = Script::new(ConfigTable {
        entries: vec![("CMD".to_string(), ConfigValue::List(vec![]))],
    });
    assert_eq!(list.gen_cmd(), Err(ScriptError::TypeMismatch("CMD".to_string())));
}

#[test]
fn an_empty_command_has_no_executable() {
    let mut s = script("  ");
    s.register_main_loader(one()).unwrap();
    assert_eq!(s.fill_static_vars(), Ok(vec![]));
    assert_eq!(s.gen_cmd(), Err(ScriptError::EmptyCommand));
}

#[test]
fn a_primary_provider_without_tuples_gives_no_task() {
    let mut s = script("echo");
    s.register_main_loader(pairs(&[], &[])).unwrap();
    assert_eq!(s.gen_cmd(), Ok(vec![]));
}

#[test]
fn from_file_reads_the_document_and_registers_nothing() {
    let s: Script<Fixed, Pairs> = Script::from_file("CMD = \"echo\"\n[X]\ny = 1\n").unwrap();
    assert_eq!(s.config().get_str("CMD"), Ok("echo".to_string()));
    assert_eq!(s.loader_count(), 0);
    assert!(!s.has_main_loader());
    let bad: Result<Script<Fixed, Pairs>, ScriptError> = Script::from_file("CMD = ");
    assert!(matches!(bad, Err(ScriptError::Syntax(_))));
}

#[test]
fn find_incomplete_gives_the_first() {
    let tasks = vec![
        task("a", "run", &["x"]),
        task("b", "run", &["$x"]),
        task("c", "$run", &[]),
    ];
    assert_eq!(find_incomplete(&tasks), Some(1));
    assert_eq!(find_incomplete(&tasks[..1].to_vec()), None);
    assert_eq!(find_incomplete(&vec![]), None);
}

#[test]
fn otawa_tacle_script_registers_both_providers() {
    let s = otawa_tacle_script(EXAMPLE, SUITE).unwrap();
    assert_eq!(s.loader_count(), 1);
    assert!(s.has_main_loader());
}

#[test]
fn otawa_tacle_script_refuses_what_is_no_toml() {
    assert!(matches!(otawa_tacle_script("CMD = ", SUITE), Err(ScriptError::Syntax(_))));
    assert!(matches!(otawa_tacle_script(EXAMPLE, "[["), Err(ScriptError::Syntax(_))));
}

#[test]
fn otawa_tacle_script_reports_what_the_document_lacks() {
    let no_tacle = EXAMPLE.replace("[TACLE]", "[OTHER]");
    assert!(matches!(
        otawa_tacle_script(&no_tacle, SUITE),
        Err(ScriptError::MissingField(key)) if key == "TACLE"
    ));
    let no_otawa = EXAMPLE.replace("[OTAWA]", "[OTHER]");
    assert!(matches!(
        otawa_tacle_script(&no_otawa, SUITE),
        Err(ScriptError::MissingField(key)) if key == "OTAWA"
    ));
    assert!(matches!(
        otawa_tacle_script(EXAMPLE, "benchsets = []"),
        Err(ScriptError::MissingField(key)) if key == "root_path"
    ));
}

#[test]
fn otawa_may_not_claim_what_the_benchmarks_claim() {
    let clash = EXAMPLE.replace(
        "PROVIDED_VARS = [\"$otawa_app\", \"$otawa_opts\"]",
        "PROVIDED_VARS = [\"$otawa_app\", \"$tacle_exec\"]",
    );
    assert!(matches!(
        otawa_tacle_script(&clash, SUITE),
        Err(ScriptError::DuplicateClaim(name)) if name == "$tacle_exec"
    ));
}

#[test]
fn otawa_tacle_from_config_takes_the_documents_themselves() {
    let config = zexp::document::parse_config(EXAMPLE).unwrap();
    let suite = zexp::document::parse_config(SUITE).unwrap();
    let mut s: Script<OTAWAConfigLoader, TACLeConfigLoader> =
        otawa_tacle_from_config(config, &suite).unwrap();
    assert_eq!(s.gen_cmd(), Ok(example_tasks()));
}

#[test]
fn an_unclaimed_name_of_the_template_fails_the_otawa_script() {
    let other = EXAMPLE.replace("$otawa_opts\"\n", "$otawa_opts $more\"\n");
    assert!(matches!(
        otawa_tacle_script(&other, SUITE),
        Err(ScriptError::UnresolvedPlaceholder(name)) if name == "$more"
    ));
}

#[test]
fn the_otawa_script_needs_its_command() {
    let none = EXAMPLE.replace("CMD = ", "COMMAND = ");
    assert!(matches!(
        otawa_tacle_script(&none, SUITE),
        Err(ScriptError::MissingField(key)) if key == "CMD"
    ));
    let list = EXAMPLE.replace(
        "CMD = \"$otawa_app $tacle_exec $tacle_entry_point $otawa_opts\"",
        "CMD = [\"$otawa_app\"]",
    );
    assert!(matches!(
        otawa_tacle_script(&list, SUITE),
        Err(ScriptError::TypeMismatch(key)) if key == "CMD"
    ));
}

#[test]
fn validate_finds_what_is_wrong_before_anything_is_expanded() {
    let mut no_command: Script<Fixed, Pairs> = Script::new(ConfigTable::new());
    no_command.register_main_loader(one()).unwrap();
    assert_eq!(no_command.validate(), Err(ScriptError::MissingField("CMD".to_string())));

    let mut s = script("$app $nobody $broken");
    assert_eq!(s.validate(), Err(ScriptError::MissingMainLoader));
    s.register_main_loader(one()).unwrap();
    assert_eq!(s.validate(), Err(ScriptError::UnresolvedPlaceholder("$app".to_string())));
    s.register_loader(fixed(&["$app"], &["echo"])).unwrap();
    assert_eq!(s.validate(), Err(ScriptError::UnresolvedPlaceholder("$nobody".to_string())));
    s.register_loader(fixed(&["$nobody", "$broken"], &["x"])).unwrap();
    assert_eq!(s.validate(), Ok(()));
    assert_eq!(s.gen_cmd(), Err(ScriptError::MissingField("broken".to_string())));
}

#[test]
fn validate_takes_a_claim_of_the_primary_provider() {
    let mut s = script("run $exec $entry");
    s.register_main_loader(pairs(&["$exec", "$entry"], &[("a", "x")])).unwrap();
    assert_eq!(s.validate(), Ok(()));
}
