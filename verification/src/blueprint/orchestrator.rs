//! One run from its first instance to its last: which instance is next,
//! where its output goes, and what the run reports.

use vstd::prelude::*;
use vstd::string::*;

use crate::blueprint::bindings::{
    alias_views, all_bindings, bound, distinct_names, law_binding_binds_every_alias,
    representable, Alias, AliasView, Binding, BindingEnumerator, BindingView,
};
use crate::blueprint::resolver::{
    all_plainly_asked, expand_refs, locator_views, parse_reference, parsed, resolved_first,
    resolves_first, stops_with, Catalog, CatalogView, ParsedReference, ParsedView, ReferenceError,
};
use crate::models::runs::{CompositorRunStatus, RunEvent};
use crate::models::templates::{AliasEntryView, Template, TemplateView};
use crate::text::{same_text, texts};

verus! {

/// `done` of `estimate` in hundredths, rounded to the nearest whole number,
/// halves upwards. Nothing of nothing is 0.
pub open spec fn rounded_percent(done: nat, estimate: nat) -> nat {
    if estimate == 0 {
        0
    } else {
        (200 * done + estimate) / (2 * estimate)
    }
}

/// The progress that a run reports after `done` instances. The last
/// instance brings 100. Before it the rounded share of the estimate is
/// reported, and 99 where the share has reached 100 too early.
pub open spec fn progress_after(done: nat, estimate: nat, last: bool) -> nat {
    if last {
        100
    } else if rounded_percent(done, estimate) > 99 {
        99
    } else {
        rounded_percent(done, estimate)
    }
}

/// The progress that a run reports after `done` instances of an estimated
/// `estimate`; `last` says that no instance is left.
pub fn progress(done: u64, estimate: u64, last: bool) -> (percent: u8)
    ensures
        percent == progress_after(done as nat, estimate as nat, last),
        percent <= 100,
        percent == 100 <==> last,
{
    if last {
        return 100;
    }
    if estimate == 0 {
        return 0;
    }
    let share: u128 = (200 * (done as u128) + estimate as u128) / (2 * (estimate as u128));
    if share > 99 {
        99
    } else {
        share as u8
    }
}

/// The number of candidates of the first alias named `primary`: the
/// estimate of a run's instances. Without such an alias it is 0.
pub open spec fn estimate_of(aliases: Seq<AliasView>, primary: Seq<char>) -> nat
    decreases aliases.len(),
{
    if aliases.len() == 0 {
        0
    } else if aliases[0].name == primary {
        aliases[0].candidates.len()
    } else {
        estimate_of(aliases.drop_first(), primary)
    }
}

/// The estimate of a run's instances: the number of candidates of the
/// alias that names the outputs.
pub fn estimate_total(aliases: &Vec<Alias>, primary: &str) -> (estimate: usize)
    ensures
        estimate == estimate_of(alias_views(aliases@), primary@),
{
    let mut j: usize = 0;
    assert(alias_views(aliases@).skip(0) == alias_views(aliases@));
    while j < aliases.len()
        invariant
            j <= aliases@.len(),
            estimate_of(alias_views(aliases@), primary@) == estimate_of(
                alias_views(aliases@).skip(j as int),
                primary@,
            ),
        decreases aliases@.len() - j,
    {
        assert(alias_views(aliases@).skip(j as int).drop_first() == alias_views(aliases@).skip(
            j + 1,
        ));
        if same_text(aliases[j].name.as_str(), primary) {
            return aliases[j].candidates.len();
        }
        j += 1;
    }
    0
}

/// Why a run ended early.
#[derive(Debug, Clone, Copy, PartialEq, Eq, Structural)]
pub enum RunError {
    /// The binding of the instance gives the output-naming alias no asset.
    MissingPrimary,
}

/// The name under which the output of an instance is stored: the run's
/// identifier, `/`, and the path of the asset bound to the alias `primary`.
pub open spec fn output_name_of(run_id: Seq<char>, binding: BindingView, primary: Seq<char>) -> Option<
    Seq<char>,
> {
    match bound(binding, primary) {
        Some(locator) => Some(run_id + "/"@ + locator.path),
        None => None,
    }
}

/// The name under which the output of an instance is stored.
pub fn output_name(run_id: &str, binding: &Binding, primary: &str) -> (name: Result<String, RunError>)
    ensures
        match name {
            Ok(name) => output_name_of(run_id@, binding@, primary@) == Some(name@),
            Err(error) => error == RunError::MissingPrimary && output_name_of(
                run_id@,
                binding@,
                primary@,
            ) is None,
        },
{
    match binding.get(primary) {
        Some(locator) => Ok(
            String::from_str(run_id).concat("/").concat(locator.path.as_str()),
        ),
        None => Err(RunError::MissingPrimary),
    }
}

/// The aliases of a template with their references resolved: alias `j` has
/// the name of entry `j`, and its candidates are what the entry's
/// references resolve to, in their order.
pub open spec fn expands_to(
    entries: Seq<AliasEntryView>,
    catalog: CatalogView,
    count: nat,
    aliases: Seq<AliasView>,
) -> bool {
    &&& aliases.len() == count
    &&& forall|j: int|
        0 <= j < count ==> (#[trigger] aliases[j]).name == entries[j].name && resolves_first(
            entries[j].references,
            catalog,
            entries[j].references.len(),
            aliases[j].candidates,
        )
}

/// The first `count` aliases of a template with their references
/// resolved, or the error of the first reference that fails.
pub open spec fn expanded(
    entries: Seq<AliasEntryView>,
    catalog: CatalogView,
    count: nat,
) -> Result<Seq<AliasView>, ReferenceError>
    decreases count,
{
    if count == 0 {
        Ok(Seq::empty())
    } else {
        match expanded(entries, catalog, (count - 1) as nat) {
            Err(error) => Err(error),
            Ok(before) => match resolved_first(
                entries[count - 1].references,
                catalog,
                entries[count - 1].references.len(),
            ) {
                Err(error) => Err(error),
                Ok(candidates) => Ok(
                    before.push(AliasView { name: entries[count - 1].name, candidates }),
                ),
            },
        }
    }
}

/// Every system resolves each reference of the aliases alike.
pub open spec fn aliases_plainly_asked(
    entries: Seq<AliasEntryView>,
    catalog: CatalogView,
) -> bool {
    forall|j: int|
        0 <= j < entries.len() ==> all_plainly_asked((#[trigger] entries[j]).references, catalog)
}

/// Once an alias has failed, the aliases after it change nothing.
pub proof fn lemma_expanded_fails(
    entries: Seq<AliasEntryView>,
    catalog: CatalogView,
    failed: nat,
    count: nat,
)
    requires
        failed <= count,
        expanded(entries, catalog, failed) is Err,
    ensures
        expanded(entries, catalog, count) == expanded(entries, catalog, failed),
    decreases count,
{
    if count > failed {
        lemma_expanded_fails(entries, catalog, failed, (count - 1) as nat);
    }
}

/// The result of expanding as plain values.
pub open spec fn expansion_view(outcome: Result<Vec<Alias>, ReferenceError>) -> Result<
    Seq<AliasView>,
    ReferenceError,
> {
    match outcome {
        Ok(aliases) => Ok(alias_views(aliases@)),
        Err(error) => Err(error),
    }
}

/// Resolves the references of every alias of the template, alias by alias
/// in the template's order. The first reference that fails ends it with
/// its error.
pub fn expand_aliases(template: &Template, catalog: &Catalog) -> (outcome: Result<
    Vec<Alias>,
    ReferenceError,
>)
    ensures
        match outcome {
            Ok(aliases) => expands_to(
                template@.aliases,
                catalog@,
                template@.aliases.len(),
                alias_views(aliases@),
            ),
            Err(error) => exists|j: nat, before: Seq<AliasView>|
                j < template@.aliases.len() && #[trigger] expands_to(
                    template@.aliases,
                    catalog@,
                    j,
                    before,
                ) && stops_with(template@.aliases[j as int].references, catalog@, error),
        },
        aliases_plainly_asked(template@.aliases, catalog@) ==> expansion_view(outcome) == expanded(
            template@.aliases,
            catalog@,
            template@.aliases.len(),
        ),
        outcome matches Ok(aliases) ==> (template@.distinct_aliases() ==> distinct_names(
            alias_views(aliases@),
        )),
{
    let mut aliases: Vec<Alias> = Vec::new();
    let mut j: usize = 0;
    assert(alias_views(aliases@) == Seq::<AliasView>::empty());
    while j < template.aliases.len()
        invariant
            j <= template.aliases@.len(),
            expands_to(template@.aliases, catalog@, j as nat, alias_views(aliases@)),
            aliases_plainly_asked(template@.aliases, catalog@) ==> expanded(
                template@.aliases,
                catalog@,
                j as nat,
            ) == Ok::<Seq<AliasView>, ReferenceError>(alias_views(aliases@)),
        decreases template.aliases@.len() - j,
    {
        let entry = &template.aliases[j];
        let candidates = match expand_refs(&entry.references, catalog) {
            Ok(candidates) => candidates,
            Err(error) => {
                proof {
                    if aliases_plainly_asked(template@.aliases, catalog@) {
                        lemma_expanded_fails(
                            template@.aliases,
                            catalog@,
                            (j + 1) as nat,
                            template@.aliases.len(),
                        );
                    }
                }
                return Err(error);
            },
        };
        let ghost before = alias_views(aliases@);
        let alias = Alias { name: entry.name.clone(), candidates };
        aliases.push(alias);
        assert(alias_views(aliases@) == before.push(alias@));
        j += 1;
    }
    Ok(aliases)
}

/// The packs that the first `count` references name, in their order.
pub open spec fn named_in(references: Seq<Seq<char>>, count: nat) -> Seq<Seq<char>>
    decreases count,
{
    if count == 0 {
        Seq::empty()
    } else {
        match parsed(references[count - 1]) {
            ParsedView::Scoped { pack, glob } => named_in(references, (count - 1) as nat).push(pack),
            ParsedView::Direct(_) => named_in(references, (count - 1) as nat),
        }
    }
}

/// The packs that the references of the first `count` aliases name, in
/// their order.
pub open spec fn named_by(
    entries: Seq<AliasEntryView>,
    count: nat,
) -> Seq<Seq<char>>
    decreases count,
{
    if count == 0 {
        Seq::empty()
    } else {
        named_by(entries, (count - 1) as nat) + named_in(
            entries[count - 1].references,
            entries[count - 1].references.len(),
        )
    }
}

/// The texts of the list in their order, each where it comes first.
pub open spec fn unique(list: Seq<Seq<char>>) -> Seq<Seq<char>>
    decreases list.len(),
{
    if list.len() == 0 {
        Seq::empty()
    } else if unique(list.drop_last()).contains(list.last()) {
        unique(list.drop_last())
    } else {
        unique(list.drop_last()).push(list.last())
    }
}

/// Whether the list holds the text.
fn is_listed(names: &Vec<String>, text: &str) -> (found: bool)
    ensures
        found == texts(names@).contains(text@),
{
    let mut k: usize = 0;
    while k < names.len()
        invariant
            k <= names@.len(),
            forall|i: int| 0 <= i < k ==> texts(names@)[i] != text@,
        decreases names@.len() - k,
    {
        if same_text(names[k].as_str(), text) {
            assert(texts(names@)[k as int] == text@);
            return true;
        }
        k += 1;
    }
    false
}

/// The packs that the references of the template's aliases name, each
/// once, in the order in which they are first named: the packs whose
/// assets are to be listed before the references can be resolved.
pub fn needed_packs(template: &Template) -> (packs: Vec<String>)
    ensures
        texts(packs@) == unique(named_by(template@.aliases, template@.aliases.len())),
{
    let mut packs: Vec<String> = Vec::new();
    let mut j: usize = 0;
    while j < template.aliases.len()
        invariant
            j <= template.aliases@.len(),
            texts(packs@) == unique(named_by(template@.aliases, j as nat)),
        decreases template.aliases@.len() - j,
    {
        let references = &template.aliases[j].references;
        let ghost before = named_by(template@.aliases, j as nat);
        let ghost given = texts(references@);
        let mut i: usize = 0;
        while i < references.len()
            invariant
                i <= references@.len(),
                given == texts(references@),
                texts(packs@) == unique(before + named_in(given, i as nat)),
            decreases references@.len() - i,
        {
            let ghost so_far = before + named_in(given, i as nat);
            match parse_reference(references[i].as_str()) {
                ParsedReference::Scoped { pack, glob } => {
                    let ghost named = pack@;
                    assert(so_far.push(named).drop_last() == so_far);
                    if !is_listed(&packs, pack.as_str()) {
                        packs.push(pack);
                    }
                },
                ParsedReference::Direct(_) => {},
            }
            i += 1;
        }
        j += 1;
    }
    packs
}

/// In a template all of whose layers refer to its aliases, no instance
/// leaves a layer without its asset: every binding of the resolved aliases
/// gives every layer's reference an asset.
pub proof fn law_closed_template_binds_layers(
    template: TemplateView,
    aliases: Seq<AliasView>,
    instance: int,
    layer: int,
)
    requires
        template.closed(),
        representable(aliases),
        aliases.len() == template.aliases.len(),
        forall|j: int|
            0 <= j < aliases.len() ==> (#[trigger] aliases[j]).name == template.aliases[j].name,
        0 <= instance < all_bindings(aliases).len(),
        0 <= layer < template.layers.len(),
    ensures
        bound(all_bindings(aliases)[instance], template.layers[layer].reference) is Some,
{
    let reference = template.layers[layer].reference;
    let k = choose|k: int|
        0 <= k < template.aliases.len() && (#[trigger] template.aliases[k]).name == reference;
    law_binding_binds_every_alias(aliases, instance, k);
}

/// A number of instances as a run counts it: up to the largest number of
/// 64 bits.
pub open spec fn counted(instances: nat) -> nat {
    if instances > u64::MAX {
        u64::MAX as nat
    } else {
        instances
    }
}

/// A run that a worker has taken: it hands out the instances one by one,
/// names their outputs, and keeps the status and progress that the run
/// reports.
pub struct Run {
    id: String,
    primary: String,
    enumerator: BindingEnumerator,
    current: Option<Binding>,
    done: u64,
    rendered: Ghost<nat>,
    estimate: u64,
    status: CompositorRunStatus,
    progress: u8,
}

impl Run {
    /// The run's identifier.
    pub closed spec fn id(&self) -> Seq<char> {
        self.id@
    }

    /// The alias whose asset names the outputs.
    pub closed spec fn primary(&self) -> Seq<char> {
        self.primary@
    }

    /// The aliases whose bindings are the run's instances.
    pub closed spec fn aliases(&self) -> Seq<AliasView> {
        self.enumerator.aliases()
    }

    /// The bindings of all instances of the run, in the order in which
    /// they are rendered.
    pub open spec fn instances(&self) -> Seq<BindingView> {
        all_bindings(self.aliases())
    }

    /// How many instances were rendered and stored.
    pub closed spec fn rendered(&self) -> nat {
        self.rendered@
    }

    /// The status that the run reports.
    pub closed spec fn spec_status(&self) -> CompositorRunStatus {
        self.status
    }

    /// The progress that the run reports, from 0 to 100.
    pub closed spec fn spec_progress(&self) -> nat {
        self.progress as nat
    }

    /// The estimate of the number of instances against which progress is
    /// measured.
    pub closed spec fn estimate(&self) -> nat {
        self.estimate as nat
    }

    /// The instance that is to be rendered next: a running run has one.
    pub open spec fn next_instance(&self) -> Option<BindingView> {
        if self.spec_status() == CompositorRunStatus::Running {
            Some(self.instances()[self.rendered() as int])
        } else {
            None
        }
    }

    /// What the run holds fits together: a running run has instances left,
    /// a run that succeeded has none and reports 100.
    pub closed spec fn wf(&self) -> bool {
        &&& self.enumerator.wf()
        &&& self.rendered@ <= self.instances().len()
        &&& self.done == counted(self.rendered@)
        &&& self.progress <= 100
        &&& self.status != CompositorRunStatus::Pending
        &&& match self.current {
            Some(binding) => {
                &&& self.rendered@ < self.instances().len()
                &&& binding@ == self.instances()[self.rendered@ as int]
                &&& self.enumerator.position() == self.rendered@ + 1
            },
            None => {
                &&& self.rendered@ == self.instances().len()
                &&& self.enumerator.position() == self.rendered@
            },
        }
        &&& self.status == CompositorRunStatus::Running ==> self.current is Some
        &&& self.status == CompositorRunStatus::Succeeded ==> self.current is None && self.progress
            == 100
    }

    /// In every state of a run the progress is at most 100, a running run
    /// has an instance left, and a run that succeeded has rendered them all
    /// and reports 100.
    pub proof fn law_run_invariant(&self)
        requires
            self.wf(),
        ensures
            self.rendered() <= self.instances().len(),
            self.spec_progress() <= 100,
            self.spec_status() != CompositorRunStatus::Pending,
            self.spec_status() == CompositorRunStatus::Running ==> self.rendered()
                < self.instances().len(),
            self.spec_status() == CompositorRunStatus::Succeeded ==> self.rendered()
                == self.instances().len() && self.spec_progress() == 100,
    {
    }

    /// Starts the run on the resolved aliases. A run with instances is
    /// running at progress 0; a run without any has succeeded at once.
    /// Aliases with different names stay so.
    pub fn start(id: &str, aliases: Vec<Alias>, primary: &str) -> (run: Run)
        ensures
            run.wf(),
            distinct_names(alias_views(aliases@)) ==> distinct_names(run.aliases()),
            run.id() == id@,
            run.primary() == primary@,
            run.aliases() == alias_views(aliases@),
            run.rendered() == 0,
            run.estimate() == counted(estimate_of(alias_views(aliases@), primary@)),
            run.instances().len() > 0 ==> run.spec_status() == CompositorRunStatus::Running
                && run.spec_progress() == 0,
            run.instances().len() == 0 ==> run.spec_status() == CompositorRunStatus::Succeeded
                && run.spec_progress() == 100,
    {
        let estimate = estimate_total(&aliases, primary);
        let mut enumerator = BindingEnumerator::new(aliases);
        let current = enumerator.next_binding();
        let running = current.is_some();
        Run {
            id: String::from_str(id),
            primary: String::from_str(primary),
            enumerator,
            current,
            done: 0,
            rendered: Ghost(0),
            estimate: estimate as u64,
            status: if running {
                CompositorRunStatus::Running
            } else {
                CompositorRunStatus::Succeeded
            },
            progress: if running {
                0
            } else {
                100
            },
        }
    }

    /// The status that the run reports.
    pub fn status(&self) -> (status: CompositorRunStatus)
        ensures
            status == self.spec_status(),
    {
        self.status
    }

    /// The progress that the run reports.
    pub fn progress(&self) -> (percent: u8)
        ensures
            percent == self.spec_progress(),
    {
        self.progress
    }

    /// The binding of the instance that is to be rendered next, if the run
    /// is running.
    pub fn current(&self) -> (binding: Option<&Binding>)
        requires
            self.wf(),
        ensures
            match binding {
                Some(binding) => self.next_instance() == Some(binding@),
                None => self.next_instance() is None,
            },
    {
        match self.status {
            CompositorRunStatus::Running => self.current.as_ref(),
            _ => None,
        }
    }

    /// The name under which the output of the next instance is stored: the
    /// run's identifier, `/`, and the path of the asset bound to the
    /// output-naming alias.
    pub fn output_name(&self) -> (name: Result<String, RunError>)
        requires
            self.wf(),
            self.spec_status() == CompositorRunStatus::Running,
        ensures
            match name {
                Ok(name) => output_name_of(self.id(), self.next_instance()->0, self.primary())
                    == Some(name@),
                Err(error) => error == RunError::MissingPrimary && output_name_of(
                    self.id(),
                    self.next_instance()->0,
                    self.primary(),
                ) is None,
            },
    {
        match &self.current {
            Some(binding) => output_name(self.id.as_str(), binding, self.primary.as_str()),
            None => Err(RunError::MissingPrimary),
        }
    }

    /// Records that the next instance was rendered and stored, and gives
    /// the progress to report. With the last instance the run has
    /// succeeded and reports 100; before it the run goes on and reports
    /// less. So a run reports 100 once, with its last instance.
    pub fn instance_done(&mut self) -> (percent: u8)
        requires
            old(self).wf(),
            old(self).spec_status() == CompositorRunStatus::Running,
        ensures
            final(self).wf(),
            final(self).id() == old(self).id(),
            final(self).primary() == old(self).primary(),
            final(self).aliases() == old(self).aliases(),
            final(self).estimate() == old(self).estimate(),
            final(self).rendered() == old(self).rendered() + 1,
            percent == final(self).spec_progress(),
            percent == progress_after(
                counted(final(self).rendered()),
                final(self).estimate(),
                final(self).rendered() == final(self).instances().len(),
            ),
            percent == 100 <==> final(self).rendered() == final(self).instances().len(),
            final(self).rendered() == final(self).instances().len() ==> final(self).spec_status()
                == CompositorRunStatus::Succeeded,
            final(self).rendered() < final(self).instances().len() ==> final(self).spec_status()
                == CompositorRunStatus::Running,
    {
        let next = self.enumerator.next_binding();
        let last = next.is_none();
        self.current = next;
        self.rendered = Ghost(self.rendered@ + 1);
        if self.done < u64::MAX {
            self.done = self.done + 1;
        }
        self.progress = progress(self.done, self.estimate, last);
        if last {
            self.status = CompositorRunStatus::Succeeded;
        }
        self.progress
    }

    /// Ends a running run as failed. What was rendered stays rendered, and
    /// the progress stays where it was.
    pub fn abort(&mut self)
        requires
            old(self).wf(),
        ensures
            final(self).wf(),
            final(self).rendered() == old(self).rendered(),
            final(self).aliases() == old(self).aliases(),
            final(self).spec_progress() == old(self).spec_progress(),
            final(self).spec_status() == match old(self).spec_status().spec_after(
                RunEvent::Aborted,
            ) {
                Some(status) => status,
                None => old(self).spec_status(),
            },
    {
        match self.status.after(RunEvent::Aborted) {
            Some(status) => {
                self.status = status;
            },
            None => {},
        }
    }
}

} // verus!
