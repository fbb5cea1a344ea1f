//! A script: a command template with placeholders, the providers that
//! resolve them, and the expansion of the template into tasks.

use crate::config::ConfigTable;
use crate::config::words_outcome;
use crate::document::parse_config;
use crate::document::toml_document;
use crate::error::ErrorView;
use crate::error::ScriptError;
use crate::expansion::first_incomplete;
use crate::expansion::first_where;
use crate::expansion::lemma_filled_prefix;
use crate::expansion::lemma_first_incomplete_prefix;
use crate::expansion::lemma_first_where;
use crate::expansion::lemma_first_where_prefix;
use crate::expansion::lemma_owner_from;
use crate::expansion::owner_from;
use crate::expansion::ScriptView;
use crate::loaders::otawa_of;
use crate::loaders::OTAWAConfigLoader;
use crate::loaders::OTAWAConfigView;
use crate::loaders::tacle_of;
use crate::loaders::TACLeConfigLoader;
use crate::loaders::TACLeConfigView;
use crate::tacle::described;
use crate::tacle::TACLe;
pub use crate::task::Task;
use crate::task::tasks_outcome;
use crate::task::TaskView;
use crate::text::copy_words;
use crate::text::is_placeholder;
use crate::text::list_holds;
use crate::text::starts_with_sigil;
use crate::text::tokenize;
use crate::text::tokens;
use vstd::prelude::*;

verus! {

/// A provider that can be made from the configuration document.
pub trait LoadableFromConfig: Sized {
    /// Makes the provider from the part of `config` that is meant for it. A
    /// key that is absent or of the wrong shape is an error.
    fn from_config(config: &ConfigTable) -> Result<Self, ScriptError>;
}

/// A provider of values: it claims a set of placeholders and says, for each
/// of them, which tokens take its place. What it claims and what it answers
/// depends on the provider alone, so the same question gets the same answer.
pub trait ConfigLoaderTrait {
    /// The placeholders that this provider claims, as a mathematical value.
    /// Each provider says what they are; where one does not, they are left
    /// open.
    open spec fn provided(&self) -> Seq<Seq<char>> {
        arbitrary()
    }

    /// The tokens that take the place of `var_name`, or why there are none,
    /// as a mathematical value. Each provider says what they are; where one
    /// does not, they are left open.
    open spec fn terms(&self, var_name: Seq<char>) -> Result<Seq<Seq<char>>, ErrorView> {
        arbitrary()
    }

    /// The placeholders that this provider claims.
    fn provided_vars(&self) -> (vars: Vec<String>)
        ensures
            vars.deep_view() == self.provided(),
    ;

    /// The tokens that take the place of `var_name`.
    fn get_terms(&self, var_name: &str) -> (r: Result<Vec<String>, ScriptError>)
        ensures
            words_outcome(r) == self.terms(var_name@),
    ;
}

/// The primary provider: the one that turns a command into tasks, one for
/// each tuple of values that belong together.
pub trait MainLoaderTrait {
    /// The placeholders that this provider claims, as a mathematical value.
    /// Each provider says what they are; where one does not, they are left
    /// open.
    open spec fn provided(&self) -> Seq<Seq<char>> {
        arbitrary()
    }

    /// The tasks that `cmd` stands for, or why there are none, as a
    /// mathematical value. Each provider says what they are; where one does
    /// not, they are left open.
    open spec fn tasks(&self, cmd: Seq<Seq<char>>) -> Result<Seq<TaskView>, ErrorView> {
        arbitrary()
    }

    /// The placeholders that this provider claims.
    fn provided_vars(&self) -> (vars: Vec<String>)
        ensures
            vars.deep_view() == self.provided(),
    ;

    /// Fills the command, in which the other providers' placeholders are
    /// resolved already, with this provider's values: one task for each
    /// tuple, in the order in which the provider lists its tuples.
    fn fill(&self, cmd: &Vec<String>) -> (r: Result<Vec<Task>, ScriptError>)
        ensures
            tasks_outcome(r) == self.tasks(cmd.deep_view()),
    ;
}

/// A provider as it was registered: with the names that it claimed then. A
/// provider is asked for its names once, when it is registered.
struct Registered<P> {
    provider: P,
    claims: Vec<String>,
}

/// A script: the configuration document, the providers registered so far,
/// and the primary provider. No name is ever claimed by two of its providers.
pub struct Script<L: ConfigLoaderTrait, M: MainLoaderTrait> {
    config: ConfigTable,
    loaders: Vec<Registered<L>>,
    main_loader: Option<Registered<M>>,
}

impl<L: ConfigLoaderTrait, M: MainLoaderTrait> View for Script<L, M> {
    type V = ScriptView<L, M>;

    closed spec fn view(&self) -> ScriptView<L, M> {
        ScriptView {
            config: self.config,
            loaders: self.loaders@.map_values(|r: Registered<L>| r.provider),
            main_loader: match self.main_loader {
                Some(r) => Some(r.provider),
                None => None,
            },
        }
    }
}

/// Looks for the first task that is not complete.
pub fn find_incomplete(tasks: &Vec<Task>) -> (found: Option<usize>)
    ensures
        match found {
            Some(i) => first_incomplete(tasks.deep_view()) == Some(i as int) && i < tasks@.len(),
            None => first_incomplete(tasks.deep_view()) is None,
        },
{
    let mut i: usize = 0;
    while i < tasks.len()
        invariant
            i <= tasks@.len(),
            first_incomplete(tasks.deep_view().take(i as int)) is None,
        decreases tasks@.len() - i,
    {
        proof {
            assert(tasks.deep_view().take(i + 1).drop_last() =~= tasks.deep_view().take(i as int));
            assert(tasks.deep_view().take(i + 1).last() == tasks@[i as int]@);
        }
        if !tasks[i].is_completed() {
            proof {
                lemma_first_incomplete_prefix(tasks.deep_view(), i + 1);
            }
            return Some(i);
        }
        i = i + 1;
    }
    assert(tasks.deep_view().take(i as int) =~= tasks.deep_view());
    None
}

impl<L: ConfigLoaderTrait, M: MainLoaderTrait> Script<L, M> {
    #[verifier::type_invariant]
    spec fn claims_kept_apart(self) -> bool {
        &&& self.claims_kept()
        &&& self@.claims_disjoint()
    }

    /// The names kept with each provider are those that the provider claims.
    spec fn claims_kept(self) -> bool {
        &&& forall|i: int|
            0 <= i < self.loaders@.len() ==> (#[trigger] self.loaders@[i]).claims.deep_view()
                == self.loaders@[i].provider.provided()
        &&& self.main_loader matches Some(r) ==> r.claims.deep_view() == r.provider.provided()
    }

    /// A script on `config`, with no provider yet.
    pub fn new(config: ConfigTable) -> (script: Self)
        ensures
            script@ == (ScriptView::<L, M> {
                config,
                loaders: Seq::empty(),
                main_loader: None,
            }),
    {
        let script = Script { config, loaders: Vec::new(), main_loader: None };
        assert(script@.loaders =~= Seq::<L>::empty());
        script
    }

    /// Reads a script from the text of a script file, which is TOML. Whether
    /// the document holds what the providers need is found out when they are
    /// made.
    pub fn from_file(text: &str) -> (r: Result<Self, ScriptError>)
        ensures
            match toml_document(text@) {
                Some(config) => r matches Ok(script) && script@ == (ScriptView::<L, M> {
                    config,
                    loaders: Seq::empty(),
                    main_loader: None,
                }),
                None => r matches Err(e) && e is Syntax,
            },
    {
        match parse_config(text) {
            Ok(config) => Ok(Script::new(config)),
            Err(e) => Err(e),
        }
    }

    /// The configuration document.
    pub fn config(&self) -> (config: &ConfigTable)
        ensures
            *config == self@.config,
    {
        &self.config
    }

    /// The number of providers, the primary one left aside.
    pub fn loader_count(&self) -> (n: usize)
        ensures
            n == self@.loaders.len(),
    {
        self.loaders.len()
    }

    /// Whether a primary provider is registered.
    pub fn has_main_loader(&self) -> (present: bool)
        ensures
            present == self@.main_loader is Some,
    {
        self.main_loader.is_some()
    }

    fn owner_of(&self, name: &str) -> (found: Option<usize>)
        ensures
            match found {
                Some(i) => self@.owner(name@) == Some(i as int) && i < self@.loaders.len(),
                None => self@.owner(name@) is None,
            },
    {
        proof {
            use_type_invariant(self);
        }
        let mut i: usize = 0;
        while i < self.loaders.len()
            invariant
                i <= self.loaders@.len(),
                self.claims_kept(),
                self@.loaders.len() == self.loaders@.len(),
                owner_from(self@.loaders, name@, 0) == owner_from(self@.loaders, name@, i as int),
            decreases self.loaders@.len() - i,
        {
            assert(self@.loaders[i as int] == self.loaders@[i as int].provider);
            if list_holds(&self.loaders[i].claims, name) {
                return Some(i);
            }
            i = i + 1;
        }
        None
    }

    fn main_claims(&self, name: &str) -> (claimed: bool)
        ensures
            claimed == self@.main_claims(name@),
    {
        proof {
            use_type_invariant(self);
        }
        match &self.main_loader {
            Some(main) => list_holds(&main.claims, name),
            None => false,
        }
    }

    /// Adds a provider. Where it claims a name that a provider of the script
    /// claims already, the script stays as it is and the first such name is
    /// reported.
    pub fn register_loader(&mut self, loader: L) -> (r: Result<(), ScriptError>)
        ensures
            final(self)@.claims_disjoint(),
            match old(self)@.clash(loader.provided()) {
                Some(name) => r matches Err(e) && e@ == ErrorView::DuplicateClaim(name)
                    && final(self)@ == old(self)@,
                None => r is Ok && final(self)@ == (ScriptView {
                    config: old(self)@.config,
                    loaders: old(self)@.loaders.push(loader),
                    main_loader: old(self)@.main_loader,
                }),
            },
    {
        proof {
            use_type_invariant(&*self);
        }
        let vars = loader.provided_vars();
        let ghost wanted = |name: Seq<char>| old(self)@.claimed(name);
        let mut k: usize = 0;
        while k < vars.len()
            invariant
                k <= vars@.len(),
                *self == *old(self),
                self@.claims_disjoint(),
                vars.deep_view() == loader.provided(),
                wanted == |name: Seq<char>| old(self)@.claimed(name),
                first_where(vars.deep_view().take(k as int), wanted) is None,
            decreases vars@.len() - k,
        {
            proof {
                assert(vars.deep_view().take(k + 1).drop_last() =~= vars.deep_view().take(k as int));
                assert(vars.deep_view().take(k + 1).last() == vars@[k as int]@);
            }
            let name = vars[k].as_str();
            if self.owner_of(name).is_some() || self.main_claims(name) {
                proof {
                    lemma_first_where_prefix(vars.deep_view(), wanted, k + 1);
                }
                return Err(ScriptError::DuplicateClaim(vars[k].clone()));
            }
            k = k + 1;
        }
        proof {
            assert(vars.deep_view().take(k as int) =~= vars.deep_view());
            lemma_first_where(loader.provided(), wanted);
            let before = old(self)@;
            let after = ScriptView {
                config: before.config,
                loaders: before.loaders.push(loader),
                main_loader: before.main_loader,
            };
            assert forall|name: Seq<char>| loader.provided().contains(name) implies !before.claimed(
                name,
            ) by {
                let i = choose|i: int|
                    0 <= i < loader.provided().len() && loader.provided()[i] == name;
                assert(!wanted(loader.provided()[i]));
            }
            assert forall|i: int, j: int, name: Seq<char>|
                0 <= i < j < after.loaders.len() && (#[trigger] after.loaders[i].provided().contains(
                    name,
                )) implies !(#[trigger] after.loaders[j].provided().contains(name)) by {
                if j == before.loaders.len() {
                    assert(after.loaders[i] == before.loaders[i]);
                    if loader.provided().contains(name) {
                        lemma_owner_from(before.loaders, name, 0);
                    }
                } else {
                    assert(after.loaders[i] == before.loaders[i]);
                    assert(after.loaders[j] == before.loaders[j]);
                }
            }
            assert forall|i: int, name: Seq<char>|
                0 <= i < after.loaders.len() && (#[trigger] after.loaders[i].provided().contains(
                    name,
                )) implies !after.main_claims(name) by {
                if i < before.loaders.len() {
                    assert(after.loaders[i] == before.loaders[i]);
                }
            }
            assert(after.claims_disjoint());
        }
        let mut loaders: Vec<Registered<L>> = Vec::new();
        core::mem::swap(&mut self.loaders, &mut loaders);
        loaders.push(Registered { provider: loader, claims: vars });
        proof {
            assert(loaders@.map_values(|r: Registered<L>| r.provider) =~= old(self)@.loaders.push(
                loader,
            ));
        }
        self.loaders = loaders;
        Ok(())
    }

    /// Sets the primary provider, in place of the one that was there. Where
    /// it claims a name that another provider of the script claims already,
    /// the script stays as it is and the first such name is reported.
    pub fn register_main_loader(&mut self, loader: M) -> (r: Result<(), ScriptError>)
        ensures
            final(self)@.claims_disjoint(),
            match old(self)@.clash_with_loaders(loader.provided()) {
                Some(name) => r matches Err(e) && e@ == ErrorView::DuplicateClaim(name)
                    && final(self)@ == old(self)@,
                None => r is Ok && final(self)@ == (ScriptView {
                    config: old(self)@.config,
                    loaders: old(self)@.loaders,
                    main_loader: Some(loader),
                }),
            },
    {
        proof {
            use_type_invariant(&*self);
        }
        let vars = loader.provided_vars();
        let ghost wanted = |name: Seq<char>| old(self)@.owner(name) is Some;
        let mut k: usize = 0;
        while k < vars.len()
            invariant
                k <= vars@.len(),
                *self == *old(self),
                self@.claims_disjoint(),
                vars.deep_view() == loader.provided(),
                wanted == |name: Seq<char>| old(self)@.owner(name) is Some,
                first_where(vars.deep_view().take(k as int), wanted) is None,
            decreases vars@.len() - k,
        {
            proof {
                assert(vars.deep_view().take(k + 1).drop_last() =~= vars.deep_view().take(k as int));
                assert(vars.deep_view().take(k + 1).last() == vars@[k as int]@);
            }
            if self.owner_of(vars[k].as_str()).is_some() {
                proof {
                    lemma_first_where_prefix(vars.deep_view(), wanted, k + 1);
                }
                return Err(ScriptError::DuplicateClaim(vars[k].clone()));
            }
            k = k + 1;
        }
        proof {
            assert(vars.deep_view().take(k as int) =~= vars.deep_view());
            lemma_first_where(loader.provided(), wanted);
            let before = old(self)@;
            let after = ScriptView {
                config: before.config,
                loaders: before.loaders,
                main_loader: Some(loader),
            };
            assert forall|i: int, name: Seq<char>|
                0 <= i < after.loaders.len() && (#[trigger] after.loaders[i].provided().contains(
                    name,
                )) implies !after.main_claims(name) by {
                if loader.provided().contains(name) {
                    let k = choose|k: int|
                        0 <= k < loader.provided().len() && loader.provided()[k] == name;
                    assert(!wanted(loader.provided()[k]));
                    lemma_owner_from(before.loaders, name, 0);
                }
            }
            assert(after.claims_disjoint());
        }
        self.main_loader = Some(Registered { provider: loader, claims: vars });
        Ok(())
    }

    fn command(&self) -> (r: Result<Vec<String>, ScriptError>)
        ensures
            words_outcome(r) == self@.command(),
    {
        match self.config.get_str("CMD") {
            Ok(line) => Ok(tokenize(line.as_str())),
            Err(e) => Err(e),
        }
    }

    fn fill_tokens(&self, template: &Vec<String>) -> (r: Result<Vec<String>, ScriptError>)
        ensures
            words_outcome(r) == self@.filled(template.deep_view()),
    {
        let mut done: Vec<String> = Vec::new();
        let mut i: usize = 0;
        assert(done.deep_view() =~= Seq::<Seq<char>>::empty());
        while i < template.len()
            invariant
                i <= template@.len(),
                self@.filled(template.deep_view().take(i as int)) == Ok::<Seq<Seq<char>>, ErrorView>(
                    done.deep_view(),
                ),
            decreases template@.len() - i,
        {
            proof {
                assert(template.deep_view().take(i + 1).drop_last() =~= template.deep_view().take(
                    i as int,
                ));
                assert(template.deep_view().take(i + 1).last() == template@[i as int]@);
            }
            let token = &template[i];
            let ghost before = done.deep_view();
            let owner = if starts_with_sigil(token.as_str()) {
                self.owner_of(token.as_str())
            } else {
                None
            };
            match owner {
                Some(at) => match self.loaders[at].provider.get_terms(token.as_str()) {
                    Ok(terms) => {
                        let mut k: usize = 0;
                        while k < terms.len()
                            invariant
                                k <= terms@.len(),
                                done.deep_view() == before + terms.deep_view().take(k as int),
                            decreases terms@.len() - k,
                        {
                            let ghost so_far = done.deep_view();
                            done.push(terms[k].clone());
                            proof {
                                assert(done.deep_view() =~= so_far.push(terms@[k as int]@));
                                assert(before + terms.deep_view().take(k + 1) =~= so_far.push(
                                    terms@[k as int]@,
                                ));
                            }
                            k = k + 1;
                        }
                        assert(terms.deep_view().take(k as int) =~= terms.deep_view());
                    },
                    Err(e) => {
                        proof {
                            lemma_filled_prefix(self@, template.deep_view(), i + 1);
                        }
                        return Err(e);
                    },
                },
                None => {
                    done.push(token.clone());
                    assert(done.deep_view() =~= before + seq![token@]);
                },
            }
            i = i + 1;
        }
        assert(template.deep_view().take(i as int) =~= template.deep_view());
        Ok(done)
    }

    /// Fills the command with what the providers other than the primary one
    /// resolve: each placeholder that one of them claims gives way to that
    /// provider's tokens, every other token stays.
    pub fn fill_static_vars(&self) -> (r: Result<Vec<String>, ScriptError>)
        ensures
            words_outcome(r) == self@.static_command(),
    {
        match self.command() {
            Ok(template) => self.fill_tokens(&template),
            Err(e) => Err(e),
        }
    }

    fn find_unclaimed(&self, template: &Vec<String>) -> (found: Option<String>)
        ensures
            match found {
                Some(name) => self@.unclaimed(template.deep_view()) == Some(name@),
                None => self@.unclaimed(template.deep_view()) is None,
            },
    {
        let ghost wanted = |token: Seq<char>| is_placeholder(token) && !self@.claimed(token);
        let mut i: usize = 0;
        while i < template.len()
            invariant
                i <= template@.len(),
                wanted == |token: Seq<char>| is_placeholder(token) && !self@.claimed(token),
                first_where(template.deep_view().take(i as int), wanted) is None,
            decreases template@.len() - i,
        {
            proof {
                assert(template.deep_view().take(i + 1).drop_last() =~= template.deep_view().take(
                    i as int,
                ));
                assert(template.deep_view().take(i + 1).last() == template@[i as int]@);
            }
            let token = template[i].as_str();
            if starts_with_sigil(token) && self.owner_of(token).is_none() && !self.main_claims(
                token,
            ) {
                proof {
                    lemma_first_where_prefix(template.deep_view(), wanted, i + 1);
                }
                return Some(template[i].clone());
            }
            i = i + 1;
        }
        assert(template.deep_view().take(i as int) =~= template.deep_view());
        None
    }

    /// Looks for what is wrong with the script before any provider is asked
    /// for a value: the template must be there, a primary provider too, and
    /// every placeholder of the template must be claimed. To be called when
    /// the providers are registered.
    pub fn validate(&self) -> (r: Result<(), ScriptError>)
        ensures
            match self@.config_error() {
                Some(e) => r matches Err(found) && found@ == e,
                None => r is Ok,
            },
    {
        let template = match self.command() {
            Ok(template) => template,
            Err(e) => {
                return Err(e);
            },
        };
        if self.main_loader.is_none() {
            return Err(ScriptError::MissingMainLoader);
        }
        match self.find_unclaimed(&template) {
            Some(name) => Err(ScriptError::UnresolvedPlaceholder(name)),
            None => Ok(()),
        }
    }

    /// Expands the script into its tasks, as `expansion` says: one task for
    /// each tuple of the primary provider, in the provider's order, each of
    /// them complete; or the first error on the way.
    pub fn gen_cmd(&mut self) -> (r: Result<Vec<Task>, ScriptError>)
        ensures
            tasks_outcome(r) == old(self)@.expansion(),
            final(self)@ == old(self)@,
            final(self)@.claims_disjoint(),
    {
        proof {
            use_type_invariant(&*self);
        }
        let template = match self.command() {
            Ok(template) => template,
            Err(e) => {
                return Err(e);
            },
        };
        let main = match &self.main_loader {
            Some(main) => main,
            None => {
                return Err(ScriptError::MissingMainLoader);
            },
        };
        match self.find_unclaimed(&template) {
            Some(name) => {
                return Err(ScriptError::UnresolvedPlaceholder(name));
            },
            None => {},
        }
        let partial = match self.fill_tokens(&template) {
            Ok(partial) => partial,
            Err(e) => {
                return Err(e);
            },
        };
        let tasks = match main.provider.fill(&partial) {
            Ok(tasks) => tasks,
            Err(e) => {
                return Err(e);
            },
        };
        match find_incomplete(&tasks) {
            Some(i) => Err(
                ScriptError::IncompleteTask {
                    name: tasks[i].name.clone(),
                    remaining_args: copy_words(&tasks[i].args),
                },
            ),
            None => Ok(tasks),
        }
    }
}

/// What is wrong with the command of `config` where the names of
/// `otawa_vars` and of `main_vars` are claimed: the template cannot be read,
/// or one of its placeholders is not among these names.
pub open spec fn template_error(
    config: ConfigTable,
    otawa_vars: Seq<Seq<char>>,
    main_vars: Seq<Seq<char>>,
) -> Option<ErrorView> {
    match config.text_at("CMD"@) {
        Err(e) => Some(e),
        Ok(line) => match first_where(
            tokens(line),
            |token: Seq<char>|
                is_placeholder(token) && !otawa_vars.contains(token) && !main_vars.contains(token),
        ) {
            Some(name) => Some(ErrorView::UnresolvedPlaceholder(name)),
            None => None,
        },
    }
}

/// The two providers of an OTAWA experiment on the TACLe suite, as `config`
/// and the suite's description give them: first what the document says of
/// the benchmarks, then the description, then what the document says of
/// OTAWA, which may claim no name that the benchmarks claim; and every
/// placeholder of the command must be claimed by one of the two.
pub open spec fn otawa_tacle_providers(config: ConfigTable, description: ConfigTable) -> Result<
    (OTAWAConfigView, TACLeConfigView),
    ErrorView,
> {
    match tacle_of(config) {
        Err(e) => Err(e),
        Ok(main) => match described(description) {
            Err(e) => Err(e),
            Ok(suite) => match otawa_of(config) {
                Err(e) => Err(e),
                Ok(otawa) => match first_where(
                    otawa.provided_vars,
                    |name: Seq<char>| main.provided_vars.contains(name),
                ) {
                    Some(name) => Err(ErrorView::DuplicateClaim(name)),
                    None => match template_error(config, otawa.provided_vars, main.provided_vars) {
                        Some(e) => Err(e),
                        None => Ok((otawa, TACLeConfigView { tacle: Some(suite), ..main })),
                    },
                },
            },
        },
    }
}

/// Whether `r` is the script on `config` with the providers `expected`, or
/// the error that stands in their place.
pub open spec fn is_otawa_tacle_script(
    r: Result<Script<OTAWAConfigLoader, TACLeConfigLoader>, ScriptError>,
    config: ConfigTable,
    expected: Result<(OTAWAConfigView, TACLeConfigView), ErrorView>,
) -> bool {
    match expected {
        Err(e) => r matches Err(found) && found@ == e,
        Ok((otawa, main)) => {
            &&& r matches Ok(script)
            &&& script@.config == config
            &&& script@.loaders.len() == 1
            &&& script@.loaders[0]@ == otawa
            &&& script@.main_loader matches Some(found)
            &&& found@ == main
        },
    }
}

/// The script of an OTAWA experiment on the TACLe suite: the document
/// `config` with its two providers, the benchmarks as the primary one. What
/// is wrong with the document is found here, before anything is expanded.
pub fn otawa_tacle_from_config(config: ConfigTable, description: &ConfigTable) -> (r: Result<
    Script<OTAWAConfigLoader, TACLeConfigLoader>,
    ScriptError,
>)
    ensures
        is_otawa_tacle_script(r, config, otawa_tacle_providers(config, *description)),
{
    let mut main = match TACLeConfigLoader::from_config(&config) {
        Ok(main) => main,
        Err(e) => {
            return Err(e);
        },
    };
    let suite = match TACLe::from_config(description) {
        Ok(suite) => suite,
        Err(e) => {
            return Err(e);
        },
    };
    main.set_description(suite);
    let otawa = match OTAWAConfigLoader::from_config(&config) {
        Ok(otawa) => otawa,
        Err(e) => {
            return Err(e);
        },
    };
    let mut script: Script<OTAWAConfigLoader, TACLeConfigLoader> = Script::new(config);
    let ghost empty = script@;
    proof {
        lemma_first_where(main.provided(), |name: Seq<char>| empty.owner(name) is Some);
    }
    match script.register_main_loader(main) {
        Ok(()) => {},
        Err(e) => {
            return Err(e);
        },
    }
    let ghost with_main = script@;
    proof {
        assert forall|name: Seq<char>| with_main.claimed(name) == main@.provided_vars.contains(
            name,
        ) by {}
        assert((|name: Seq<char>| with_main.claimed(name)) =~= (|name: Seq<char>|
            main@.provided_vars.contains(name)));
    }
    match script.register_loader(otawa) {
        Ok(()) => {},
        Err(e) => {
            return Err(e);
        },
    }
    proof {
        let full = script@;
        assert(full.loaders[0] == otawa);
        assert forall|token: Seq<char>| full.claimed(token) == (otawa@.provided_vars.contains(
            token,
        ) || main@.provided_vars.contains(token)) by {
            lemma_owner_from(full.loaders, token, 0);
        }
        assert((|token: Seq<char>| is_placeholder(token) && !full.claimed(token)) =~= (|
            token: Seq<char>,
        |
            is_placeholder(token) && !otawa@.provided_vars.contains(token)
                && !main@.provided_vars.contains(token)));
    }
    match script.validate() {
        Ok(()) => Ok(script),
        Err(e) => Err(e),
    }
}

/// Reads the script of an OTAWA experiment on the TACLe suite from the text
/// of the script file and the text of the suite's description, both TOML.
pub fn otawa_tacle_script(script: &str, description: &str) -> (r: Result<
    Script<OTAWAConfigLoader, TACLeConfigLoader>,
    ScriptError,
>)
    ensures
        match (toml_document(script@), toml_document(description@)) {
            (Some(config), Some(suite)) => is_otawa_tacle_script(
                r,
                config,
                otawa_tacle_providers(config, suite),
            ),
            _ => r matches Err(e) && e is Syntax,
        },
{
    let config = match parse_config(script) {
        Ok(config) => config,
        Err(e) => {
            return Err(e);
        },
    };
    let suite = match parse_config(description) {
        Ok(suite) => suite,
        Err(e) => {
            return Err(e);
        },
    };
    otawa_tacle_from_config(config, &suite)
}

} // verus!
