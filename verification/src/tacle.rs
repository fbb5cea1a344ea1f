//! The TACLe benchmark suite: its description, and the choice of the
//! benchmarks to run.

use crate::config::ConfigTable;
use crate::config::ConfigValue;
use crate::document::parse_config;
use crate::document::toml_document;
use crate::error::ErrorView;
use crate::error::ScriptError;
use crate::text::join_path;
use crate::text::joined_path;
use vstd::prelude::*;

verus! {

/// One benchmark: its name, the program to analyse and the function at which
/// the analysis starts.
#[derive(Debug, Clone, PartialEq, Eq)]
pub struct Bench {
    pub name: String,
    pub executable: String,
    pub entry_point: String,
}

/// A `Bench` as a mathematical value.
pub struct BenchView {
    pub name: Seq<char>,
    pub executable: Seq<char>,
    pub entry_point: Seq<char>,
}

impl View for Bench {
    type V = BenchView;

    open spec fn view(&self) -> BenchView {
        BenchView { name: self.name@, executable: self.executable@, entry_point: self.entry_point@ }
    }
}

impl DeepView for Bench {
    type V = BenchView;

    open spec fn deep_view(&self) -> BenchView {
        self@
    }
}

/// A named set of benchmarks that lie in one directory of the suite.
#[derive(Debug, Clone, PartialEq, Eq)]
pub struct BenchSet {
    name: String,
    path_from_root: String,
    benchs: Vec<Bench>,
}

/// A `BenchSet` as a mathematical value.
pub struct BenchSetView {
    pub name: Seq<char>,
    pub path_from_root: Seq<char>,
    pub benchs: Seq<BenchView>,
}

impl View for BenchSet {
    type V = BenchSetView;

    closed spec fn view(&self) -> BenchSetView {
        BenchSetView {
            name: self.name@,
            path_from_root: self.path_from_root@,
            benchs: self.benchs.deep_view(),
        }
    }
}

impl DeepView for BenchSet {
    type V = BenchSetView;

    open spec fn deep_view(&self) -> BenchSetView {
        self@
    }
}

/// The suite: the directory in which it lies, and its sets of benchmarks.
#[derive(Debug, Clone, PartialEq, Eq)]
pub struct TACLe {
    root_path: String,
    benchsets: Vec<BenchSet>,
}

/// A `TACLe` as a mathematical value.
pub struct TACLeView {
    pub root_path: Seq<char>,
    pub benchsets: Seq<BenchSetView>,
}

impl View for TACLe {
    type V = TACLeView;

    closed spec fn view(&self) -> TACLeView {
        TACLeView { root_path: self.root_path@, benchsets: self.benchsets.deep_view() }
    }
}

/// The benchmarks of those of `sets` whose name is among `names`, set by set
/// in the order of `sets`, and within a set in the order of its benchmarks.
pub open spec fn selected(sets: Seq<BenchSetView>, names: Seq<Seq<char>>) -> Seq<BenchView>
    decreases sets.len(),
{
    if sets.len() == 0 {
        Seq::empty()
    } else if names.contains(sets.last().name) {
        selected(sets.drop_last(), names) + sets.last().benchs
    } else {
        selected(sets.drop_last(), names)
    }
}

impl BenchView {
    /// The benchmark with its program's path taken from `dir`.
    pub open spec fn patched(self, dir: Seq<char>) -> BenchView {
        BenchView { name: self.name, executable: joined_path(dir, self.executable), entry_point: self.entry_point }
    }
}

impl BenchSetView {
    /// The directory of the set in a suite that lies in `root`.
    pub open spec fn dir(self, root: Seq<char>) -> Seq<char> {
        joined_path(root, self.path_from_root)
    }

    /// The set with the path of each program taken from the set's directory.
    pub open spec fn patched(self, root: Seq<char>) -> BenchSetView {
        BenchSetView {
            name: self.name,
            path_from_root: self.path_from_root,
            benchs: self.benchs.map_values(|b: BenchView| b.patched(self.dir(root))),
        }
    }
}

impl TACLeView {
    /// The suite with the path of each program taken from the suite's root
    /// and the directory of its set.
    pub open spec fn patched(self) -> TACLeView {
        TACLeView {
            root_path: self.root_path,
            benchsets: self.benchsets.map_values(|s: BenchSetView| s.patched(self.root_path)),
        }
    }

    /// The benchmarks of the sets whose name is among `names`.
    pub open spec fn select(self, names: Seq<Seq<char>>) -> Seq<BenchView> {
        selected(self.benchsets, names)
    }
}

/// The benchmark that a table of a description stands for.
pub open spec fn bench_of(table: ConfigTable) -> Result<BenchView, ErrorView> {
    match table.text_at("name"@) {
        Err(e) => Err(e),
        Ok(name) => match table.text_at("exec"@) {
            Err(e) => Err(e),
            Ok(executable) => match table.text_at("entry_point"@) {
                Err(e) => Err(e),
                Ok(entry_point) => Ok(BenchView { name, executable, entry_point }),
            },
        },
    }
}

/// The benchmarks that a list of a description stands for. The first item
/// that is no table, or no benchmark, decides the error.
pub open spec fn benchs_of(items: Seq<ConfigValue>) -> Result<Seq<BenchView>, ErrorView>
    decreases items.len(),
{
    if items.len() == 0 {
        Ok(Seq::empty())
    } else {
        match benchs_of(items.drop_last()) {
            Err(e) => Err(e),
            Ok(benchs) => match items.last() {
                ConfigValue::Table(table) => match bench_of(table) {
                    Err(e) => Err(e),
                    Ok(bench) => Ok(benchs.push(bench)),
                },
                _ => Err(ErrorView::TypeMismatch("benchs"@)),
            },
        }
    }
}

/// The set of benchmarks that a table of a description stands for.
pub open spec fn benchset_of(table: ConfigTable) -> Result<BenchSetView, ErrorView> {
    match table.text_at("name"@) {
        Err(e) => Err(e),
        Ok(name) => match table.text_at("path_from_root"@) {
            Err(e) => Err(e),
            Ok(path_from_root) => match table.list_at("benchs"@) {
                Err(e) => Err(e),
                Ok(items) => match benchs_of(items) {
                    Err(e) => Err(e),
                    Ok(benchs) => Ok(BenchSetView { name, path_from_root, benchs }),
                },
            },
        },
    }
}

/// The sets that a list of a description stands for. The first item that is
/// no table, or no set, decides the error.
pub open spec fn benchsets_of(items: Seq<ConfigValue>) -> Result<Seq<BenchSetView>, ErrorView>
    decreases items.len(),
{
    if items.len() == 0 {
        Ok(Seq::empty())
    } else {
        match benchsets_of(items.drop_last()) {
            Err(e) => Err(e),
            Ok(sets) => match items.last() {
                ConfigValue::Table(table) => match benchset_of(table) {
                    Err(e) => Err(e),
                    Ok(set) => Ok(sets.push(set)),
                },
                _ => Err(ErrorView::TypeMismatch("benchsets"@)),
            },
        }
    }
}

/// The suite that a description stands for, with the paths as the
/// description gives them.
pub open spec fn suite_of(doc: ConfigTable) -> Result<TACLeView, ErrorView> {
    match doc.text_at("root_path"@) {
        Err(e) => Err(e),
        Ok(root_path) => match doc.list_at("benchsets"@) {
            Err(e) => Err(e),
            Ok(items) => match benchsets_of(items) {
                Err(e) => Err(e),
                Ok(benchsets) => Ok(TACLeView { root_path, benchsets }),
            },
        },
    }
}

/// The suite that a description stands for, with the full path of each
/// program.
pub open spec fn described(doc: ConfigTable) -> Result<TACLeView, ErrorView> {
    match suite_of(doc) {
        Err(e) => Err(e),
        Ok(suite) => Ok(suite.patched()),
    }
}

/// A suite read from a description, or the reason why there is none, as a
/// mathematical value.
pub open spec fn suite_outcome(r: Result<TACLe, ScriptError>) -> Result<TACLeView, ErrorView> {
    match r {
        Ok(suite) => Ok(suite@),
        Err(e) => Err(e@),
    }
}

impl Bench {
    /// Makes a benchmark.
    pub fn new(name: String, executable: String, entry_point: String) -> (bench: Bench)
        ensures
            bench@ == (BenchView { name: name@, executable: executable@, entry_point: entry_point@ }),
    {
        Bench { name, executable, entry_point }
    }

    /// A copy of the benchmark.
    pub fn duplicate(&self) -> (copy: Bench)
        ensures
            copy == *self,
    {
        Bench {
            name: self.name.clone(),
            executable: self.executable.clone(),
            entry_point: self.entry_point.clone(),
        }
    }

    /// Reads a benchmark from a table of a description.
    pub fn from_config(table: &ConfigTable) -> (r: Result<Bench, ScriptError>)
        ensures
            match r {
                Ok(bench) => bench_of(*table) == Ok::<BenchView, ErrorView>(bench@),
                Err(e) => bench_of(*table) == Err::<BenchView, ErrorView>(e@),
            },
    {
        let name = match table.get_str("name") {
            Ok(s) => s,
            Err(e) => {
                return Err(e);
            },
        };
        let executable = match table.get_str("exec") {
            Ok(s) => s,
            Err(e) => {
                return Err(e);
            },
        };
        let entry_point = match table.get_str("entry_point") {
            Ok(s) => s,
            Err(e) => {
                return Err(e);
            },
        };
        Ok(Bench { name, executable, entry_point })
    }

    fn patched(&self, dir: &str) -> (bench: Bench)
        ensures
            bench@ == self@.patched(dir@),
    {
        Bench {
            name: self.name.clone(),
            executable: join_path(dir, self.executable.as_str()),
            entry_point: self.entry_point.clone(),
        }
    }
}

fn read_benchs(items: &Vec<ConfigValue>) -> (r: Result<Vec<Bench>, ScriptError>)
    ensures
        match r {
            Ok(benchs) => benchs_of(items@) == Ok::<Seq<BenchView>, ErrorView>(benchs.deep_view()),
            Err(e) => benchs_of(items@) == Err::<Seq<BenchView>, ErrorView>(e@),
        },
{
    let mut benchs: Vec<Bench> = Vec::new();
    let mut i: usize = 0;
    assert(benchs.deep_view() =~= Seq::<BenchView>::empty());
    while i < items.len()
        invariant
            i <= items@.len(),
            benchs_of(items@.take(i as int)) == Ok::<Seq<BenchView>, ErrorView>(benchs.deep_view()),
        decreases items@.len() - i,
    {
        proof {
            assert(items@.take(i + 1).drop_last() =~= items@.take(i as int));
            assert(items@.take(i + 1).last() == items@[i as int]);
        }
        let bench = match &items[i] {
            ConfigValue::Table(table) => match Bench::from_config(table) {
                Ok(bench) => bench,
                Err(e) => {
                    proof {
                        lemma_benchs_of_prefix(items@, i + 1);
                    }
                    return Err(e);
                },
            },
            _ => {
                proof {
                    lemma_benchs_of_prefix(items@, i + 1);
                }
                return Err(ScriptError::TypeMismatch("benchs".to_owned()));
            },
        };
        let ghost before = benchs.deep_view();
        let ghost added = bench@;
        benchs.push(bench);
        assert(benchs.deep_view() =~= before.push(added));
        i = i + 1;
    }
    assert(items@.take(i as int) =~= items@);
    Ok(benchs)
}

/// An error in a part of a list of benchmarks is the error of the list.
pub proof fn lemma_benchs_of_prefix(items: Seq<ConfigValue>, n: int)
    requires
        0 <= n <= items.len(),
        benchs_of(items.take(n)) is Err,
    ensures
        benchs_of(items) == benchs_of(items.take(n)),
    decreases items.len() - n,
{
    if n < items.len() {
        assert(items.take(n + 1).drop_last() =~= items.take(n));
        lemma_benchs_of_prefix(items, n + 1);
    } else {
        assert(items.take(n) =~= items);
    }
}

/// An error in a part of a list of sets is the error of the list.
pub proof fn lemma_benchsets_of_prefix(items: Seq<ConfigValue>, n: int)
    requires
        0 <= n <= items.len(),
        benchsets_of(items.take(n)) is Err,
    ensures
        benchsets_of(items) == benchsets_of(items.take(n)),
    decreases items.len() - n,
{
    if n < items.len() {
        assert(items.take(n + 1).drop_last() =~= items.take(n));
        lemma_benchsets_of_prefix(items, n + 1);
    } else {
        assert(items.take(n) =~= items);
    }
}

impl BenchSet {
    /// Makes a set of benchmarks.
    pub fn new(name: String, path_from_root: String, benchs: Vec<Bench>) -> (set: BenchSet)
        ensures
            set@ == (BenchSetView {
                name: name@,
                path_from_root: path_from_root@,
                benchs: benchs.deep_view(),
            }),
    {
        BenchSet { name, path_from_root, benchs }
    }

    /// Reads a set of benchmarks from a table of a description.
    pub fn from_config(table: &ConfigTable) -> (r: Result<BenchSet, ScriptError>)
        ensures
            match r {
                Ok(set) => benchset_of(*table) == Ok::<BenchSetView, ErrorView>(set@),
                Err(e) => benchset_of(*table) == Err::<BenchSetView, ErrorView>(e@),
            },
    {
        let name = match table.get_str("name") {
            Ok(s) => s,
            Err(e) => {
                return Err(e);
            },
        };
        let path_from_root = match table.get_str("path_from_root") {
            Ok(s) => s,
            Err(e) => {
                return Err(e);
            },
        };
        let items = match table.get_list("benchs") {
            Ok(items) => items,
            Err(e) => {
                return Err(e);
            },
        };
        let benchs = match read_benchs(items) {
            Ok(benchs) => benchs,
            Err(e) => {
                return Err(e);
            },
        };
        Ok(BenchSet { name, path_from_root, benchs })
    }

    fn patched(&self, root: &str) -> (set: BenchSet)
        ensures
            set@ == self@.patched(root@),
    {
        let dir = join_path(root, self.path_from_root.as_str());
        let mut benchs: Vec<Bench> = Vec::new();
        let mut i: usize = 0;
        while i < self.benchs.len()
            invariant
                i <= self.benchs@.len(),
                dir@ == self@.dir(root@),
                benchs.deep_view() == self@.benchs.take(i as int).map_values(
                    |b: BenchView| b.patched(self@.dir(root@)),
                ),
            decreases self.benchs@.len() - i,
        {
            let bench = self.benchs[i].patched(dir.as_str());
            let ghost before = benchs.deep_view();
            let ghost added = bench@;
            benchs.push(bench);
            proof {
                assert(benchs.deep_view() =~= before.push(added));
                assert(self@.benchs.take(i + 1).map_values(
                    |b: BenchView| b.patched(self@.dir(root@)),
                ) =~= before.push(added));
            }
            i = i + 1;
        }
        assert(self@.benchs.take(i as int) =~= self@.benchs);
        BenchSet { name: self.name.clone(), path_from_root: self.path_from_root.clone(), benchs }
    }
}

fn read_benchsets(items: &Vec<ConfigValue>) -> (r: Result<Vec<BenchSet>, ScriptError>)
    ensures
        match r {
            Ok(sets) => benchsets_of(items@) == Ok::<Seq<BenchSetView>, ErrorView>(
                sets.deep_view(),
            ),
            Err(e) => benchsets_of(items@) == Err::<Seq<BenchSetView>, ErrorView>(e@),
        },
{
    let mut sets: Vec<BenchSet> = Vec::new();
    let mut i: usize = 0;
    assert(sets.deep_view() =~= Seq::<BenchSetView>::empty());
    while i < items.len()
        invariant
            i <= items@.len(),
            benchsets_of(items@.take(i as int)) == Ok::<Seq<BenchSetView>, ErrorView>(
                sets.deep_view(),
            ),
        decreases items@.len() - i,
    {
        proof {
            assert(items@.take(i + 1).drop_last() =~= items@.take(i as int));
            assert(items@.take(i + 1).last() == items@[i as int]);
        }
        let set = match &items[i] {
            ConfigValue::Table(table) => match BenchSet::from_config(table) {
                Ok(set) => set,
                Err(e) => {
                    proof {
                        lemma_benchsets_of_prefix(items@, i + 1);
                    }
                    return Err(e);
                },
            },
            _ => {
                proof {
                    lemma_benchsets_of_prefix(items@, i + 1);
                }
                return Err(ScriptError::TypeMismatch("benchsets".to_owned()));
            },
        };
        let ghost before = sets.deep_view();
        let ghost added = set@;
        sets.push(set);
        assert(sets.deep_view() =~= before.push(added));
        i = i + 1;
    }
    assert(items@.take(i as int) =~= items@);
    Ok(sets)
}

impl TACLe {
    /// Makes a suite. The paths of the programs are taken as they are.
    pub fn new(root_path: String, benchsets: Vec<BenchSet>) -> (suite: TACLe)
        ensures
            suite@ == (TACLeView { root_path: root_path@, benchsets: benchsets.deep_view() }),
    {
        TACLe { root_path, benchsets }
    }

    /// Reads a suite from the text of its description, which is TOML. The
    /// path of each program is then taken from the suite's root and the
    /// directory of its set.
    pub fn from_script(text: &str) -> (r: Result<TACLe, ScriptError>)
        ensures
            match toml_document(text@) {
                Some(doc) => suite_outcome(r) == described(doc),
                None => r matches Err(e) && e is Syntax,
            },
    {
        match parse_config(text) {
            Ok(doc) => TACLe::from_config(&doc),
            Err(e) => Err(e),
        }
    }

    /// Reads a suite from its description. The path of each program is then
    /// taken from the suite's root and the directory of its set.
    pub fn from_config(doc: &ConfigTable) -> (r: Result<TACLe, ScriptError>)
        ensures
            suite_outcome(r) == described(*doc),
    {
        let root_path = match doc.get_str("root_path") {
            Ok(s) => s,
            Err(e) => {
                return Err(e);
            },
        };
        let items = match doc.get_list("benchsets") {
            Ok(items) => items,
            Err(e) => {
                return Err(e);
            },
        };
        let benchsets = match read_benchsets(items) {
            Ok(sets) => sets,
            Err(e) => {
                return Err(e);
            },
        };
        let mut suite = TACLe { root_path, benchsets };
        suite.patch_full_exec_name();
        Ok(suite)
    }

    /// A description names each program by its path within its set. This
    /// puts the suite's root and the set's directory in front of it.
    pub fn patch_full_exec_name(&mut self)
        ensures
            final(self)@ == old(self)@.patched(),
    {
        let mut sets: Vec<BenchSet> = Vec::new();
        let mut i: usize = 0;
        while i < self.benchsets.len()
            invariant
                i <= self.benchsets@.len(),
                *self == *old(self),
                sets.deep_view() == self@.benchsets.take(i as int).map_values(
                    |s: BenchSetView| s.patched(self@.root_path),
                ),
            decreases self.benchsets@.len() - i,
        {
            let set = self.benchsets[i].patched(self.root_path.as_str());
            let ghost before = sets.deep_view();
            let ghost added = set@;
            sets.push(set);
            proof {
                assert(sets.deep_view() =~= before.push(added));
                assert(self@.benchsets.take(i + 1).map_values(
                    |s: BenchSetView| s.patched(self@.root_path),
                ) =~= before.push(added));
            }
            i = i + 1;
        }
        assert(self@.benchsets.take(i as int) =~= self@.benchsets);
        self.benchsets = sets;
    }

    /// The benchmarks of the sets whose name is among `benchset_name`, set by
    /// set in the order of the suite.
    pub fn select_bench(&self, benchset_name: &Vec<String>) -> (benchs: Vec<Bench>)
        ensures
            benchs.deep_view() == self@.select(benchset_name.deep_view()),
    {
        let mut benchs: Vec<Bench> = Vec::new();
        let mut i: usize = 0;
        while i < self.benchsets.len()
            invariant
                i <= self.benchsets@.len(),
                benchs.deep_view() == selected(
                    self@.benchsets.take(i as int),
                    benchset_name.deep_view(),
                ),
            decreases self.benchsets@.len() - i,
        {
            let set = &self.benchsets[i];
            proof {
                assert(self@.benchsets.take(i + 1).drop_last() =~= self@.benchsets.take(i as int));
                assert(self@.benchsets.take(i + 1).last() == set@);
            }
            if crate::text::list_holds(benchset_name, set.name.as_str()) {
                let mut j: usize = 0;
                let ghost before = benchs.deep_view();
                while j < set.benchs.len()
                    invariant
                        j <= set.benchs@.len(),
                        benchs.deep_view() == before + set@.benchs.take(j as int),
                    decreases set.benchs@.len() - j,
                {
                    let ghost so_far = benchs.deep_view();
                    benchs.push(set.benchs[j].duplicate());
                    proof {
                        assert(benchs.deep_view() =~= so_far.push(set.benchs@[j as int]@));
                        assert(set@.benchs.take(j + 1) =~= set@.benchs.take(j as int).push(
                            set.benchs@[j as int]@,
                        ));
                        assert(before + set@.benchs.take(j + 1) =~= so_far.push(
                            set.benchs@[j as int]@,
                        ));
                    }
                    j = j + 1;
                }
                assert(set@.benchs.take(j as int) =~= set@.benchs);
            }
            i = i + 1;
        }
        assert(self@.benchsets.take(i as int) =~= self@.benchsets);
        benchs
    }
}

} // verus!
