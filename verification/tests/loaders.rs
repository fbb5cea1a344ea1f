use zexp::config::ConfigTable;
use zexp::config::ConfigValue;
use zexp::document::parse_config;
use zexp::error::ScriptError;
use zexp::loaders::tasks_of;
use zexp::loaders::OTAWAConfigLoader;
use zexp::loaders::TACLeConfigLoader;
use zexp::script::ConfigLoaderTrait;
use zexp::script::LoadableFromConfig;
use zexp::script::MainLoaderTrait;
use zexp::tacle::Bench;
use zexp::tacle::BenchSet;
use zexp::tacle::TACLe;
use zexp::task::Task;

const SCRIPT: &str = r#"
CMD = "$otawa_app $tacle_exec $tacle_entry_point $otawa_opts"

[OTAWA]
PROVIDED_VARS = ["$otawa_app", "$otawa_opts"]
app_path = "/opt/otawa/bin/owcet"
props = ["otawa::PROCESSOR_PATH=arm.xml", "otawa::CACHE_CONFIG_PATH=cache.xml"]
log_level = "info"

[TACLE]
PROVIDED_VARS = ["$tacle_exec", "$tacle_entry_point"]
tacle_desc_path = "/opt/tacle-bench/tacle.toml"
tacle_run_benchset = ["kernel"]
"#;

fn words(list: &[&str]) -> Vec<String> {
    list.iter().map(|s| s.to_string()).collect()
}

fn bench(name: &str, executable: &str, entry_point: &str) -> Bench {
    Bench {
        name: name.to_string(),
        executable: executable.to_string(),
        entry_point: entry_point.to_string(),
    }
}

fn task(name: &str, cmd: &str, args: &[&str]) -> Task {
    Task { name: name.to_string(), cmd: cmd.to_string(), args: words(args) }
}

fn suite() -> TACLe {
    TACLe::new(
        "/t".to_string(),
        vec![
            BenchSet::new(
                "kernel".to_string(),
                "kernel".to_string(),
                vec![bench("a", "/t/kernel/a.elf", "x"), bench("b", "/t/kernel/b.elf", "y")],
            ),
            BenchSet::new(
                "sequential".to_string(),
                "sequential".to_string(),
                vec![bench("s", "/t/sequential/s.elf", "z")],
            ),
        ],
    )
}

fn otawa() -> OTAWAConfigLoader {
    OTAWAConfigLoader::from_config(&parse_config(SCRIPT).unwrap()).unwrap()
}

fn without(section: &str, key: &str) -> ConfigTable {
    let mut doc = parse_config(SCRIPT).unwrap();
    for (name, value) in doc.entries.iter_mut() {
        if name == section {
            if let ConfigValue::Table(t) = value {
                t.entries.retain(|(k, _)| k != key);
            }
        }
    }
    doc
}

fn with_number(section: &str, key: &str) -> ConfigTable {
    let mut doc = parse_config(SCRIPT).unwrap();
    for (name, value) in doc.entries.iter_mut() {
        if name == section {
            if let ConfigValue::Table(t) = value {
                for (k, v) in t.entries.iter_mut() {
                    if k == key {
                        *v = ConfigValue::Int(1);
                    }
                }
            }
        }
    }
    doc
}

#[test]
fn otawa_is_read_from_its_section() {
    let expected = OTAWAConfigLoader::new(
        words(&["$otawa_app", "$otawa_opts"]),
        "/opt/otawa/bin/owcet".to_string(),
        words(&["otawa::PROCESSOR_PATH=arm.xml", "otawa::CACHE_CONFIG_PATH=cache.xml"]),
        "info".to_string(),
    );
    assert_eq!(otawa(), expected);
    assert_eq!(otawa().provided_vars(), words(&["$otawa_app", "$otawa_opts"]));
}

#[test]
fn otawa_app_is_the_path_of_the_tool() {
    assert_eq!(otawa().get_terms("$otawa_app"), Ok(words(&["/opt/otawa/bin/owcet"])));
}

#[test]
fn otawa_opts_are_the_properties_then_the_log() {
    assert_eq!(
        otawa().get_terms("$otawa_opts"),
        Ok(words(&[
            "--add-prop",
            "otawa::PROCESSOR_PATH=arm.xml",
            "--add-prop",
            "otawa::CACHE_CONFIG_PATH=cache.xml",
            "--log",
            "info"
        ]))
    );
}

#[test]
fn otawa_opts_without_properties_are_the_log_alone() {
    let loader = OTAWAConfigLoader::new(
        words(&["$otawa_opts"]),
        "owcet".to_string(),
        vec![],
        "debug".to_string(),
    );
    assert_eq!(loader.get_terms("$otawa_opts"), Ok(words(&["--log", "debug"])));
}

#[test]
fn otawa_knows_no_other_placeholder() {
    assert_eq!(
        otawa().get_terms("$tacle_exec"),
        Err(ScriptError::UnknownPlaceholder("$tacle_exec".to_string()))
    );
    assert_eq!(
        otawa().get_terms("otawa_app"),
        Err(ScriptError::UnknownPlaceholder("otawa_app".to_string()))
    );
}

#[test]
fn otawa_resolves_only_what_it_claims() {
    let loader = OTAWAConfigLoader::new(
        words(&["$otawa_app", "$other"]),
        "owcet".to_string(),
        vec![],
        "info".to_string(),
    );
    assert_eq!(loader.get_terms("$otawa_app"), Ok(words(&["owcet"])));
    assert_eq!(
        loader.get_terms("$otawa_opts"),
        Err(ScriptError::UnknownPlaceholder("$otawa_opts".to_string()))
    );
    assert_eq!(
        loader.get_terms("$other"),
        Err(ScriptError::UnknownPlaceholder("$other".to_string()))
    );
}

#[test]
fn otawa_needs_each_of_its_keys() {
    assert_eq!(
        OTAWAConfigLoader::from_config(&parse_config("CMD = \"x\"\n").unwrap()),
        Err(ScriptError::MissingField("OTAWA".to_string()))
    );
    assert_eq!(
        OTAWAConfigLoader::from_config(&parse_config("OTAWA = \"x\"\n").unwrap()),
        Err(ScriptError::TypeMismatch("OTAWA".to_string()))
    );
    for key in ["PROVIDED_VARS", "app_path", "props", "log_level"] {
        assert_eq!(
            OTAWAConfigLoader::from_config(&without("OTAWA", key)),
            Err(ScriptError::MissingField(key.to_string()))
        );
        assert_eq!(
            OTAWAConfigLoader::from_config(&with_number("OTAWA", key)),
            Err(ScriptError::TypeMismatch(key.to_string()))
        );
    }
}

#[test]
fn otawa_reports_the_first_bad_key_in_the_order_of_its_fields() {
    let doc = parse_config("[OTAWA]\nlog_level = 3\nprops = [1]\napp_path = \"a\"\n").unwrap();
    assert_eq!(
        OTAWAConfigLoader::from_config(&doc),
        Err(ScriptError::MissingField("PROVIDED_VARS".to_string()))
    );
    let doc = parse_config("[OTAWA]\nPROVIDED_VARS = []\nlog_level = 3\nprops = [1]\napp_path = \"a\"\n")
        .unwrap();
    assert_eq!(
        OTAWAConfigLoader::from_config(&doc),
        Err(ScriptError::TypeMismatch("props".to_string()))
    );
}

#[test]
fn tacle_loader_is_read_from_its_section() {
    let loader = TACLeConfigLoader::from_config(&parse_config(SCRIPT).unwrap()).unwrap();
    assert_eq!(loader.provided_vars(), words(&["$tacle_exec", "$tacle_entry_point"]));
    assert_eq!(loader.tacle_desc_path(), "/opt/tacle-bench/tacle.toml");
}

#[test]
fn tacle_loader_needs_each_of_its_keys() {
    assert_eq!(
        TACLeConfigLoader::from_config(&ConfigTable::new()),
        Err(ScriptError::MissingField("TACLE".to_string()))
    );
    assert_eq!(
        TACLeConfigLoader::from_config(&parse_config("TACLE = [1]\n").unwrap()),
        Err(ScriptError::TypeMismatch("TACLE".to_string()))
    );
    for key in ["PROVIDED_VARS", "tacle_desc_path", "tacle_run_benchset"] {
        assert_eq!(
            TACLeConfigLoader::from_config(&without("TACLE", key)),
            Err(ScriptError::MissingField(key.to_string()))
        );
        assert_eq!(
            TACLeConfigLoader::from_config(&with_number("TACLE", key)),
            Err(ScriptError::TypeMismatch(key.to_string()))
        );
    }
}

#[test]
fn tacle_loader_without_its_description_makes_no_task() {
    let loader = TACLeConfigLoader::from_config(&parse_config(SCRIPT).unwrap()).unwrap();
    assert_eq!(
        loader.fill(&words(&["owcet", "$tacle_exec"])),
        Err(ScriptError::MissingDescription("/opt/tacle-bench/tacle.toml".to_string()))
    );
}

#[test]
fn tacle_loader_fills_once_the_description_is_there() {
    let mut loader = TACLeConfigLoader::from_config(&parse_config(SCRIPT).unwrap()).unwrap();
    loader.set_description(suite());
    assert_eq!(
        loader.fill(&words(&["owcet", "$tacle_exec", "$tacle_entry_point"])),
        Ok(vec![
            task("a", "owcet", &["/t/kernel/a.elf", "x"]),
            task("b", "owcet", &["/t/kernel/b.elf", "y"]),
        ])
    );
    let made = TACLeConfigLoader::new(
        words(&["$tacle_exec", "$tacle_entry_point"]),
        "/opt/tacle-bench/tacle.toml".to_string(),
        words(&["kernel"]),
        suite(),
    );
    assert_eq!(loader, made);
}

#[test]
fn tacle_loader_runs_the_kernel_set() {
    let loader = TACLeConfigLoader::new(vec![], "d".to_string(), words(&["sequential"]), suite());
    let names: Vec<String> =
        loader.fill(&words(&["run"])).unwrap().into_iter().map(|t| t.name).collect();
    assert_eq!(names, words(&["a", "b"]));
}

#[test]
fn three_tuples_give_three_tasks_and_never_nine() {
    let benchs = vec![bench("one", "a", "x"), bench("two", "b", "y"), bench("three", "c", "z")];
    let cmd = words(&["run", "$tacle_exec", "$tacle_entry_point"]);
    assert_eq!(
        tasks_of(&cmd, &benchs),
        Ok(vec![
            task("one", "run", &["a", "x"]),
            task("two", "run", &["b", "y"]),
            task("three", "run", &["c", "z"]),
        ])
    );
}

#[test]
fn each_occurrence_of_a_placeholder_is_replaced() {
    let benchs = vec![bench("one", "a", "x")];
    let cmd = words(&["$tacle_exec", "$tacle_entry_point", "$tacle_exec", "-e", "$tacle_entry_point"]);
    assert_eq!(tasks_of(&cmd, &benchs), Ok(vec![task("one", "a", &["x", "a", "-e", "x"])]));
}

#[test]
fn only_a_whole_token_is_a_placeholder() {
    let benchs = vec![bench("one", "a", "x")];
    assert_eq!(
        tasks_of(&words(&["run", "--exec=$tacle_exec"]), &benchs),
        Err(ScriptError::IncompleteTask {
            name: "one".to_string(),
            remaining_args: words(&["--exec=$tacle_exec"])
        })
    );
}

#[test]
fn tasks_of_no_bench_are_none() {
    assert_eq!(tasks_of(&words(&["run", "$tacle_exec"]), &vec![]), Ok(vec![]));
    assert_eq!(tasks_of(&vec![], &vec![]), Ok(vec![]));
}

#[test]
fn an_empty_command_gives_no_task() {
    assert_eq!(tasks_of(&vec![], &vec![bench("one", "a", "x")]), Err(ScriptError::EmptyCommand));
}

#[test]
fn a_sigil_that_is_left_makes_the_task_incomplete() {
    let benchs = vec![bench("one", "a", "x"), bench("two", "b", "y")];
    assert_eq!(
        tasks_of(&words(&["run", "$tacle_exec", "$left"]), &benchs),
        Err(ScriptError::IncompleteTask {
            name: "one".to_string(),
            remaining_args: words(&["a", "$left"])
        })
    );
    assert_eq!(
        tasks_of(&words(&["$left", "$tacle_exec"]), &benchs),
        Err(ScriptError::IncompleteTask { name: "one".to_string(), remaining_args: words(&["a"]) })
    );
}

#[test]
fn a_sigil_in_a_value_makes_only_that_task_incomplete() {
    let benchs = vec![bench("one", "a", "x"), bench("two", "b$", "y"), bench("three", "$c", "z")];
    assert_eq!(
        tasks_of(&words(&["run", "$tacle_exec"]), &benchs),
        Err(ScriptError::IncompleteTask { name: "two".to_string(), remaining_args: words(&["b$"]) })
    );
}
