//! What a script stands for: which provider owns a placeholder, how the
//! command template is filled, and the list of tasks that comes out, with
//! the laws that hold of it.

use crate::config::ConfigTable;
use crate::error::ErrorView;
use crate::error::ScriptError;
use crate::script::ConfigLoaderTrait;
use crate::script::MainLoaderTrait;
use crate::task::Task;
use crate::task::tasks_outcome;
use crate::task::TaskView;
use crate::text::has_sigil;
use crate::text::is_placeholder;
use crate::text::tokens;
use vstd::prelude::*;

verus! {

/// The first of `items` of which `wanted` holds.
pub open spec fn first_where(items: Seq<Seq<char>>, wanted: spec_fn(Seq<char>) -> bool) -> Option<
    Seq<char>,
>
    decreases items.len(),
{
    if items.len() == 0 {
        None
    } else {
        match first_where(items.drop_last(), wanted) {
            Some(item) => Some(item),
            None => if wanted(items.last()) {
                Some(items.last())
            } else {
                None
            },
        }
    }
}

/// The position of the first provider at or after `from` that claims `name`.
pub open spec fn owner_from<L: ConfigLoaderTrait>(loaders: Seq<L>, name: Seq<char>, from: int) -> Option<
    int,
>
    decreases loaders.len() - from,
{
    if from < 0 || from >= loaders.len() {
        None
    } else if loaders[from].provided().contains(name) {
        Some(from)
    } else {
        owner_from(loaders, name, from + 1)
    }
}

/// The position of the first task that is not complete.
pub open spec fn first_incomplete(tasks: Seq<TaskView>) -> Option<int>
    decreases tasks.len(),
{
    if tasks.len() == 0 {
        None
    } else {
        match first_incomplete(tasks.drop_last()) {
            Some(i) => Some(i),
            None => if tasks.last().is_completed() {
                None
            } else {
                Some(tasks.len() - 1)
            },
        }
    }
}

/// A `Script` as a mathematical value.
pub struct ScriptView<L, M> {
    pub config: ConfigTable,
    pub loaders: Seq<L>,
    pub main_loader: Option<M>,
}

impl<L: ConfigLoaderTrait, M: MainLoaderTrait> ScriptView<L, M> {
    /// The position of the first provider that claims `name`, the primary
    /// provider left aside.
    pub open spec fn owner(self, name: Seq<char>) -> Option<int> {
        owner_from(self.loaders, name, 0)
    }

    /// Whether the primary provider claims `name`.
    pub open spec fn main_claims(self, name: Seq<char>) -> bool {
        self.main_loader matches Some(main) && main.provided().contains(name)
    }

    /// Whether any provider claims `name`.
    pub open spec fn claimed(self, name: Seq<char>) -> bool {
        self.owner(name) is Some || self.main_claims(name)
    }

    /// No name is claimed by two providers.
    pub open spec fn claims_disjoint(self) -> bool {
        &&& forall|i: int, j: int, name: Seq<char>|
            0 <= i < j < self.loaders.len() && (#[trigger] self.loaders[i].provided().contains(name))
                ==> !(#[trigger] self.loaders[j].provided().contains(name))
        &&& forall|i: int, name: Seq<char>|
            0 <= i < self.loaders.len() && (#[trigger] self.loaders[i].provided().contains(name))
                ==> !self.main_claims(name)
    }

    /// The tokens of the command template, which the document holds as a
    /// string under `CMD`.
    pub open spec fn command(self) -> Result<Seq<Seq<char>>, ErrorView> {
        match self.config.text_at("CMD"@) {
            Err(e) => Err(e),
            Ok(line) => Ok(tokens(line)),
        }
    }

    /// What takes the place of one token of the template when the static
    /// variables are filled in: for a placeholder that a provider other than
    /// the primary one claims, that provider's tokens; for any other token,
    /// the token itself.
    pub open spec fn replacement(self, token: Seq<char>) -> Result<Seq<Seq<char>>, ErrorView> {
        if is_placeholder(token) {
            match self.owner(token) {
                Some(i) => self.loaders[i].terms(token),
                None => Ok(seq![token]),
            }
        } else {
            Ok(seq![token])
        }
    }

    /// The replacements of `template`, token by token. The first token that
    /// cannot be resolved decides the error.
    pub open spec fn filled(self, template: Seq<Seq<char>>) -> Result<Seq<Seq<char>>, ErrorView>
        decreases template.len(),
    {
        if template.len() == 0 {
            Ok(Seq::empty())
        } else {
            match self.filled(template.drop_last()) {
                Err(e) => Err(e),
                Ok(done) => match self.replacement(template.last()) {
                    Err(e) => Err(e),
                    Ok(terms) => Ok(done + terms),
                },
            }
        }
    }

    /// The command with its static variables filled in.
    pub open spec fn static_command(self) -> Result<Seq<Seq<char>>, ErrorView> {
        match self.command() {
            Err(e) => Err(e),
            Ok(template) => self.filled(template),
        }
    }

    /// The first placeholder of `template` that no provider claims.
    pub open spec fn unclaimed(self, template: Seq<Seq<char>>) -> Option<Seq<char>> {
        first_where(template, |token: Seq<char>| is_placeholder(token) && !self.claimed(token))
    }

    /// The first of `vars` that a provider of the script claims already.
    pub open spec fn clash(self, vars: Seq<Seq<char>>) -> Option<Seq<char>> {
        first_where(vars, |name: Seq<char>| self.claimed(name))
    }

    /// The first of `vars` that a provider other than the primary one claims.
    pub open spec fn clash_with_loaders(self, vars: Seq<Seq<char>>) -> Option<Seq<char>> {
        first_where(vars, |name: Seq<char>| self.owner(name) is Some)
    }

    /// What is wrong with the script before any provider is asked for a
    /// value, if anything is: the template cannot be read, there is no
    /// primary provider, or a placeholder of the template is claimed by no
    /// provider.
    pub open spec fn config_error(self) -> Option<ErrorView> {
        match self.command() {
            Err(e) => Some(e),
            Ok(template) => match self.main_loader {
                None => Some(ErrorView::MissingMainLoader),
                Some(_) => match self.unclaimed(template) {
                    Some(name) => Some(ErrorView::UnresolvedPlaceholder(name)),
                    None => None,
                },
            },
        }
    }

    /// The tasks that the script stands for, or the first reason why it
    /// stands for none: the template is read, a primary provider must be
    /// there, every placeholder of the template must be claimed, the static
    /// variables are filled in, the primary provider makes the tasks, and
    /// each task must be complete.
    pub open spec fn expansion(self) -> Result<Seq<TaskView>, ErrorView> {
        match self.command() {
            Err(e) => Err(e),
            Ok(template) => match self.main_loader {
                None => Err(ErrorView::MissingMainLoader),
                Some(main) => match self.unclaimed(template) {
                    Some(name) => Err(ErrorView::UnresolvedPlaceholder(name)),
                    None => match self.filled(template) {
                        Err(e) => Err(e),
                        Ok(partial) => match main.tasks(partial) {
                            Err(e) => Err(e),
                            Ok(tasks) => match first_incomplete(tasks) {
                                Some(i) => Err(
                                    ErrorView::IncompleteTask {
                                        name: tasks[i].name,
                                        remaining_args: tasks[i].args,
                                    },
                                ),
                                None => Ok(tasks),
                            },
                        },
                    },
                },
            },
        }
    }
}

/// What is found in a part of a list is found in the list.
pub proof fn lemma_first_where_prefix(
    items: Seq<Seq<char>>,
    wanted: spec_fn(Seq<char>) -> bool,
    n: int,
)
    requires
        0 <= n <= items.len(),
        first_where(items.take(n), wanted) is Some,
    ensures
        first_where(items, wanted) == first_where(items.take(n), wanted),
    decreases items.len() - n,
{
    if n < items.len() {
        assert(items.take(n + 1).drop_last() =~= items.take(n));
        lemma_first_where_prefix(items, wanted, n + 1);
    } else {
        assert(items.take(n) =~= items);
    }
}

/// Where nothing is found, `wanted` holds of no item; what is found is an
/// item of which `wanted` holds, and the first such.
pub proof fn lemma_first_where(items: Seq<Seq<char>>, wanted: spec_fn(Seq<char>) -> bool)
    ensures
        first_where(items, wanted) is None <==> forall|i: int|
            0 <= i < items.len() ==> !wanted(#[trigger] items[i]),
        first_where(items, wanted) matches Some(item) ==> exists|i: int|
            0 <= i < items.len() && #[trigger] items[i] == item && wanted(item) && forall|j: int|
                0 <= j < i ==> !wanted(#[trigger] items[j]),
    decreases items.len(),
{
    if items.len() > 0 {
        let front = items.drop_last();
        lemma_first_where(front, wanted);
        assert forall|i: int| 0 <= i < front.len() implies front[i] == items[i] by {}
        match first_where(front, wanted) {
            Some(item) => {
                let i = choose|i: int|
                    0 <= i < front.len() && #[trigger] front[i] == item && wanted(item) && forall|
                        j: int,
                    |
                        0 <= j < i ==> !wanted(#[trigger] front[j]);
                assert(items[i] == item);
                assert forall|j: int| 0 <= j < i implies !wanted(#[trigger] items[j]) by {
                    assert(front[j] == items[j]);
                }
            },
            None => {
                if wanted(items.last()) {
                    let i = items.len() - 1;
                    assert(items[i] == items.last());
                    assert forall|j: int| 0 <= j < i implies !wanted(#[trigger] items[j]) by {
                        assert(front[j] == items[j]);
                    }
                } else {
                    assert forall|i: int| 0 <= i < items.len() implies !wanted(
                        #[trigger] items[i],
                    ) by {
                        if i < front.len() {
                            assert(front[i] == items[i]);
                        }
                    }
                }
            },
        }
    }
}

/// `owner_from` finds the first provider at or after `from` that claims
/// `name`, and finds none only where none claims it.
pub proof fn lemma_owner_from<L: ConfigLoaderTrait>(loaders: Seq<L>, name: Seq<char>, from: int)
    requires
        0 <= from <= loaders.len(),
    ensures
        match owner_from(loaders, name, from) {
            Some(i) => from <= i < loaders.len() && loaders[i].provided().contains(name)
                && forall|j: int| from <= j < i ==> !(#[trigger] loaders[j]).provided().contains(name),
            None => forall|j: int|
                from <= j < loaders.len() ==> !(#[trigger] loaders[j]).provided().contains(name),
        },
    decreases loaders.len() - from,
{
    if from < loaders.len() && !loaders[from].provided().contains(name) {
        lemma_owner_from(loaders, name, from + 1);
    }
}

/// An error in a part of a template is the error of the template.
pub proof fn lemma_filled_prefix<L: ConfigLoaderTrait, M: MainLoaderTrait>(
    script: ScriptView<L, M>,
    template: Seq<Seq<char>>,
    n: int,
)
    requires
        0 <= n <= template.len(),
        script.filled(template.take(n)) is Err,
    ensures
        script.filled(template) == script.filled(template.take(n)),
    decreases template.len() - n,
{
    if n < template.len() {
        assert(template.take(n + 1).drop_last() =~= template.take(n));
        lemma_filled_prefix(script, template, n + 1);
    } else {
        assert(template.take(n) =~= template);
    }
}

/// A task that is not complete in a part of a list is the first such of
/// the list.
pub proof fn lemma_first_incomplete_prefix(tasks: Seq<TaskView>, n: int)
    requires
        0 <= n <= tasks.len(),
        first_incomplete(tasks.take(n)) is Some,
    ensures
        first_incomplete(tasks) == first_incomplete(tasks.take(n)),
    decreases tasks.len() - n,
{
    if n < tasks.len() {
        assert(tasks.take(n + 1).drop_last() =~= tasks.take(n));
        lemma_first_incomplete_prefix(tasks, n + 1);
    } else {
        assert(tasks.take(n) =~= tasks);
    }
}

/// Where no task is found incomplete, every task is complete; the task that
/// is found is not complete, and every task before it is.
pub proof fn lemma_first_incomplete(tasks: Seq<TaskView>)
    ensures
        match first_incomplete(tasks) {
            None => forall|j: int| 0 <= j < tasks.len() ==> (#[trigger] tasks[j]).is_completed(),
            Some(i) => 0 <= i < tasks.len() && !tasks[i].is_completed() && forall|j: int|
                0 <= j < i ==> (#[trigger] tasks[j]).is_completed(),
        },
    decreases tasks.len(),
{
    if tasks.len() > 0 {
        let front = tasks.drop_last();
        lemma_first_incomplete(front);
        assert forall|j: int| 0 <= j < front.len() implies front[j] == tasks[j] by {}
        match first_incomplete(front) {
            Some(i) => {
                assert(front[i] == tasks[i]);
                assert forall|j: int| 0 <= j < i implies (#[trigger] tasks[j]).is_completed() by {
                    assert(front[j] == tasks[j]);
                }
            },
            None => {
                assert forall|j: int| 0 <= j < tasks.len() - 1 implies (
                #[trigger] tasks[j]).is_completed() by {
                    assert(front[j] == tasks[j]);
                }
            },
        }
    }
}

/// Where each token of a template has a replacement, the template is
/// filled.
pub proof fn lemma_filled_where_resolved<L: ConfigLoaderTrait, M: MainLoaderTrait>(
    script: ScriptView<L, M>,
    template: Seq<Seq<char>>,
)
    requires
        forall|i: int| 0 <= i < template.len() ==> script.replacement(#[trigger] template[i]) is Ok,
    ensures
        script.filled(template) is Ok,
    decreases template.len(),
{
    if template.len() > 0 {
        let front = template.drop_last();
        assert forall|i: int| 0 <= i < front.len() implies script.replacement(
            #[trigger] front[i],
        ) is Ok by {
            assert(front[i] == template[i]);
        }
        lemma_filled_where_resolved(script, front);
        assert(template.last() == template[template.len() - 1]);
    }
}

/// Every task of an expansion is complete: no sigil is left in its
/// executable or in any of its arguments.
pub proof fn lemma_expansion_is_complete<L: ConfigLoaderTrait, M: MainLoaderTrait>(
    script: ScriptView<L, M>,
)
    ensures
        script.expansion() matches Ok(tasks) ==> forall|j: int|
            0 <= j < tasks.len() ==> (#[trigger] tasks[j]).is_completed(),
{
    if script.expansion() is Ok {
        let template = script.command()->Ok_0;
        let partial = script.filled(template)->Ok_0;
        let tasks = script.main_loader->Some_0.tasks(partial)->Ok_0;
        lemma_first_incomplete(tasks);
    }
}

/// Where every placeholder of the template is claimed, every provider
/// resolves what it is asked for, and the primary provider makes at least
/// one task and only complete ones, the expansion succeeds: it is the
/// primary provider's list of tasks, not empty, each task in it complete.
pub proof fn lemma_claimed_template_expands<L: ConfigLoaderTrait, M: MainLoaderTrait>(
    script: ScriptView<L, M>,
    template: Seq<Seq<char>>,
    main: M,
)
    requires
        script.claims_disjoint(),
        script.command() == Ok::<Seq<Seq<char>>, ErrorView>(template),
        script.main_loader == Some(main),
        forall|i: int|
            0 <= i < template.len() && is_placeholder(#[trigger] template[i]) ==> script.claimed(
                template[i],
            ),
        forall|i: int| 0 <= i < template.len() ==> script.replacement(#[trigger] template[i]) is Ok,
        script.filled(template) is Ok ==> main.tasks(script.filled(template)->Ok_0) is Ok,
        script.filled(template) is Ok ==> main.tasks(script.filled(template)->Ok_0)->Ok_0.len() > 0,
        script.filled(template) is Ok ==> forall|j: int|
            0 <= j < main.tasks(script.filled(template)->Ok_0)->Ok_0.len() ==> (
            #[trigger] main.tasks(script.filled(template)->Ok_0)->Ok_0[j]).is_completed(),
    ensures
        script.filled(template) is Ok,
        script.expansion() == main.tasks(script.filled(template)->Ok_0),
        script.expansion() matches Ok(tasks) && tasks.len() > 0 && forall|j: int|
            0 <= j < tasks.len() ==> (#[trigger] tasks[j]).is_completed(),
{
    lemma_filled_where_resolved(script, template);
    lemma_first_where(
        template,
        |token: Seq<char>| is_placeholder(token) && !script.claimed(token),
    );
    lemma_first_incomplete(main.tasks(script.filled(template)->Ok_0)->Ok_0);
}

/// Where a placeholder of the template is claimed by no provider, the
/// expansion fails, and no task comes out. With a primary provider in place
/// the error names the first such placeholder.
pub proof fn lemma_unclaimed_placeholder_fails<L: ConfigLoaderTrait, M: MainLoaderTrait>(
    script: ScriptView<L, M>,
    template: Seq<Seq<char>>,
    at: int,
)
    requires
        script.command() == Ok::<Seq<Seq<char>>, ErrorView>(template),
        0 <= at < template.len(),
        is_placeholder(template[at]),
        !script.claimed(template[at]),
    ensures
        script.expansion() is Err,
        script.main_loader is Some ==> (script.expansion() matches Err(
            ErrorView::UnresolvedPlaceholder(name),
        ) && is_placeholder(name) && !script.claimed(name) && template.contains(name)),
{
    lemma_first_where(
        template,
        |token: Seq<char>| is_placeholder(token) && !script.claimed(token),
    );
}

/// What is wrong with a script before any provider is asked is what its
/// expansion fails with: such an error is found without expanding, and no
/// task comes out.
pub proof fn lemma_config_error_fails_expansion<L: ConfigLoaderTrait, M: MainLoaderTrait>(
    script: ScriptView<L, M>,
)
    ensures
        script.config_error() matches Some(e) ==> script.expansion() == Err::<
            Seq<TaskView>,
            ErrorView,
        >(e),
{
}

/// A provider that claims a name which a provider of the script claims
/// already cannot be registered: there is a clash, which `register_loader`
/// answers with `DuplicateClaim` and an unchanged script.
pub proof fn lemma_second_claim_is_refused<L: ConfigLoaderTrait, M: MainLoaderTrait>(
    script: ScriptView<L, M>,
    vars: Seq<Seq<char>>,
    name: Seq<char>,
)
    requires
        vars.contains(name),
        script.claimed(name),
    ensures
        script.clash(vars) matches Some(found) && vars.contains(found) && script.claimed(found),
{
    lemma_first_where(vars, |name: Seq<char>| script.claimed(name));
    let i = choose|i: int| 0 <= i < vars.len() && vars[i] == name;
    assert((|name: Seq<char>| script.claimed(name))(vars[i]));
}

/// In a script that is well formed, no name has two owners: the providers
/// that claim it are one and the same.
pub proof fn lemma_owner_is_unique<L: ConfigLoaderTrait, M: MainLoaderTrait>(
    script: ScriptView<L, M>,
    name: Seq<char>,
    i: int,
    j: int,
)
    requires
        script.claims_disjoint(),
        0 <= i < script.loaders.len(),
        0 <= j < script.loaders.len(),
        script.loaders[i].provided().contains(name),
        script.loaders[j].provided().contains(name),
    ensures
        i == j,
        script.owner(name) == Some(i),
        !script.main_claims(name),
{
    lemma_owner_from(script.loaders, name, 0);
}

/// Expanding one script twice gives the same outcome: the same tasks in the
/// same order, character for character, or the same error.
pub proof fn lemma_expansion_is_repeatable<L: ConfigLoaderTrait, M: MainLoaderTrait>(
    script: ScriptView<L, M>,
    first: Result<Vec<Task>, ScriptError>,
    second: Result<Vec<Task>, ScriptError>,
)
    requires
        tasks_outcome(first) == script.expansion(),
        tasks_outcome(second) == script.expansion(),
    ensures
        tasks_outcome(first) == tasks_outcome(second),
        first matches Ok(tasks) ==> (second matches Ok(again) && again.deep_view()
            == tasks.deep_view()),
{
}

/// Whether the sigil is left in `token` only because `token` is a
/// placeholder of `template` for the primary provider to resolve.
pub open spec fn left_for_main<L: ConfigLoaderTrait, M: MainLoaderTrait>(
    script: ScriptView<L, M>,
    template: Seq<Seq<char>>,
    token: Seq<char>,
) -> bool {
    !has_sigil(token) || (template.contains(token) && is_placeholder(token) && script.owner(token)
        is None)
}

/// Where the tokens of the template that are no placeholders hold no
/// sigil, and each placeholder that a provider other than the primary one
/// owns is resolved to tokens without a sigil, the template is filled, and
/// in what comes out a sigil is left only in the placeholders of the
/// template that are not resolved yet.
pub proof fn lemma_filled_leaves_only_placeholders<L: ConfigLoaderTrait, M: MainLoaderTrait>(
    script: ScriptView<L, M>,
    template: Seq<Seq<char>>,
)
    requires
        forall|i: int|
            0 <= i < template.len() && !is_placeholder(#[trigger] template[i]) ==> !has_sigil(
                template[i],
            ),
        forall|i: int|
            0 <= i < template.len() && is_placeholder(#[trigger] template[i]) && script.owner(
                template[i],
            ) is Some ==> script.replacement(template[i]) is Ok && forall|j: int|
                0 <= j < script.replacement(template[i])->Ok_0.len() ==> !has_sigil(
                    #[trigger] script.replacement(template[i])->Ok_0[j],
                ),
    ensures
        script.filled(template) is Ok,
        forall|j: int|
            0 <= j < script.filled(template)->Ok_0.len() ==> left_for_main(
                script,
                template,
                #[trigger] script.filled(template)->Ok_0[j],
            ),
    decreases template.len(),
{
    if template.len() > 0 {
        let front = template.drop_last();
        let last = template.last();
        assert(last == template[template.len() - 1]);
        assert forall|i: int| 0 <= i < front.len() implies front[i] == template[i] by {}
        assert forall|i: int|
            0 <= i < front.len() && is_placeholder(#[trigger] front[i]) && script.owner(front[i])
                is Some implies script.replacement(front[i]) is Ok && forall|j: int|
            0 <= j < script.replacement(front[i])->Ok_0.len() ==> !has_sigil(
                #[trigger] script.replacement(front[i])->Ok_0[j],
            ) by {
            assert(front[i] == template[i]);
        }
        lemma_filled_leaves_only_placeholders(script, front);
        let done = script.filled(front)->Ok_0;
        let terms = script.replacement(last)->Ok_0;
        let all = script.filled(template)->Ok_0;
        assert(all == done + terms);
        assert forall|j: int| 0 <= j < all.len() implies left_for_main(
            script,
            template,
            #[trigger] all[j],
        ) by {
            if j < done.len() {
                assert(all[j] == done[j]);
                assert(left_for_main(script, front, done[j]));
                if has_sigil(done[j]) {
                    let at = choose|at: int| 0 <= at < front.len() && front[at] == done[j];
                    assert(template[at] == done[j]);
                }
            } else {
                assert(all[j] == terms[j - done.len()]);
                if !is_placeholder(last) || script.owner(last) is None {
                    assert(terms =~= seq![last]);
                }
            }
        }
    }
}

} // verus!
