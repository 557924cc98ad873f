//! Every way to give each alias one of its candidates.

use itertools::structs::MultiProduct;
use itertools::Itertools;
use vstd::prelude::*;

use crate::blueprint::locator::{Locator, LocatorView};
use crate::blueprint::product::{
    count, digit, index_of, is_choice, lemma_distinct, lemma_empty_list_no_tuples, lemma_found,
    lemma_tuple_entry, product,
};
use crate::text::same_text;

verus! {

/// An alias with the assets that may stand for it, in catalog order.
#[derive(Debug, Clone)]
pub struct Alias {
    pub name: String,
    pub candidates: Vec<Locator>,
}

/// An alias as plain text.
pub struct AliasView {
    pub name: Seq<char>,
    pub candidates: Seq<LocatorView>,
}

impl View for Alias {
    type V = AliasView;

    open spec fn view(&self) -> AliasView {
        AliasView {
            name: self.name@,
            candidates: Seq::new(self.candidates@.len(), |i: int| self.candidates@[i]@),
        }
    }
}

/// One asset for each alias: what one rendered instance is made from.
#[derive(Debug, Clone)]
pub struct Binding {
    pub entries: Vec<(String, Locator)>,
}

/// A binding as plain text: pairs of alias and asset, in the aliases' order.
pub type BindingView = Seq<(Seq<char>, LocatorView)>;

impl View for Binding {
    type V = BindingView;

    open spec fn view(&self) -> BindingView {
        Seq::new(self.entries@.len(), |j: int| (self.entries@[j].0@, self.entries@[j].1@))
    }
}

/// The asset that the binding gives the alias: that of the first entry
/// under that name.
pub open spec fn bound(binding: BindingView, alias: Seq<char>) -> Option<LocatorView>
    decreases binding.len(),
{
    if binding.len() == 0 {
        None
    } else if binding[0].0 == alias {
        Some(binding[0].1)
    } else {
        bound(binding.drop_first(), alias)
    }
}

impl Binding {
    /// The asset bound to `alias`, if the binding knows the alias.
    pub fn get(&self, alias: &str) -> (found: Option<&Locator>)
        ensures
            match found {
                Some(locator) => bound(self@, alias@) == Some(locator@),
                None => bound(self@, alias@) is None,
            },
    {
        let mut j: usize = 0;
        assert(self@.skip(0) == self@);
        while j < self.entries.len()
            invariant
                j <= self.entries@.len(),
                bound(self@, alias@) == bound(self@.skip(j as int), alias@),
            decreases self.entries@.len() - j,
        {
            assert(self@.skip(j as int).drop_first() == self@.skip(j + 1));
            if same_text(self.entries[j].0.as_str(), alias) {
                return Some(&self.entries[j].1);
            }
            j += 1;
        }
        None
    }
}

/// The aliases as plain text.
pub open spec fn alias_views(aliases: Seq<Alias>) -> Seq<AliasView> {
    Seq::new(aliases.len(), |j: int| aliases[j]@)
}

/// For each alias the places of its candidates: 0, 1, 2 and so on.
pub open spec fn places(aliases: Seq<AliasView>) -> Seq<Seq<usize>> {
    Seq::new(
        aliases.len(),
        |j: int| Seq::new(aliases[j].candidates.len(), |i: int| i as usize),
    )
}

/// The binding that gives each alias the candidate at its place in `tuple`.
pub open spec fn binding_of(aliases: Seq<AliasView>, tuple: Seq<usize>) -> BindingView {
    Seq::new(
        aliases.len(),
        |j: int| (aliases[j].name, aliases[j].candidates[tuple[j] as int]),
    )
}

/// All bindings of the aliases, in the order in which they are handed out:
/// the candidates of the last alias change fastest.
pub open spec fn all_bindings(aliases: Seq<AliasView>) -> Seq<BindingView> {
    Seq::new(
        product(places(aliases)).len(),
        |i: int| binding_of(aliases, product(places(aliases))[i]),
    )
}

/// The product of the aliases' candidate counts.
pub open spec fn instance_count(aliases: Seq<AliasView>) -> nat {
    if aliases.len() == 0 {
        0
    } else {
        count(places(aliases))
    }
}

/// The lists that the vectors hold.
pub open spec fn held(lists: Seq<Vec<usize>>) -> Seq<Seq<usize>> {
    Seq::new(lists.len(), |j: int| lists[j]@)
}

/// itertools' iterator over the Cartesian product of several iterators. What
/// is inside is not looked at.
#[verifier::external_type_specification]
#[verifier::external_body]
#[verifier::reject_recursive_types(I)]
pub struct ExMultiProduct<I>(MultiProduct<I>) where I: Iterator + Clone, I::Item: Clone;

/// The tuples that a product has yet to hand out, next one first.
pub uninterp spec fn pending(running: MultiProduct<std::vec::IntoIter<usize>>) -> Seq<Seq<usize>>;

/// Calls itertools' `multi_cartesian_product` on the lists. As its
/// documentation shows, the iterator will yield the Cartesian product with the
/// last list changing fastest, and nothing when there is no list.
#[verifier::external_body]
fn start_product(lists: Vec<Vec<usize>>) -> (started: MultiProduct<std::vec::IntoIter<usize>>)
    ensures
        pending(started) == product(held(lists@)),
{
    lists.into_iter().map(|list| list.into_iter()).multi_cartesian_product()
}

/// Calls `next` on itertools' `MultiProduct`: the first pending tuple leaves,
/// and `None` comes when none is pending.
#[verifier::external_body]
fn next_tuple(running: &mut MultiProduct<std::vec::IntoIter<usize>>) -> (tuple: Option<Vec<usize>>)
    ensures
        pending(*old(running)).len() == 0 ==> tuple is None,
        pending(*old(running)).len() > 0 ==> tuple is Some && tuple->0@ == pending(*old(running))[0]
            && pending(*final(running)) == pending(*old(running)).drop_first(),
{
    running.next()
}

/// Builds for each alias the list of its candidates' places.
fn place_lists(aliases: &Vec<Alias>) -> (lists: Vec<Vec<usize>>)
    ensures
        held(lists@) == places(alias_views(aliases@)),
{
    let mut lists: Vec<Vec<usize>> = Vec::new();
    let mut j: usize = 0;
    while j < aliases.len()
        invariant
            j <= aliases@.len(),
            lists@.len() == j,
            forall|k: int|
                0 <= k < j ==> (#[trigger] lists@[k])@ == Seq::new(
                    aliases@[k].candidates@.len(),
                    |i: int| i as usize,
                ),
        decreases aliases@.len() - j,
    {
        let n = aliases[j].candidates.len();
        let mut list: Vec<usize> = Vec::new();
        let mut i: usize = 0;
        while i < n
            invariant
                i <= n,
                list@ == Seq::new(i as nat, |i: int| i as usize),
            decreases n - i,
        {
            list.push(i);
            i += 1;
        }
        lists.push(list);
        j += 1;
    }
    lists
}

/// Hands out the bindings of a list of aliases one at a time, and can start
/// over. It holds the aliases and a counter for each, never the whole product.
pub struct BindingEnumerator {
    aliases: Vec<Alias>,
    running: MultiProduct<std::vec::IntoIter<usize>>,
    handed_out: Ghost<nat>,
    finished: bool,
}

impl BindingEnumerator {
    /// The aliases that are bound.
    pub closed spec fn aliases(&self) -> Seq<AliasView> {
        alias_views(self.aliases@)
    }

    /// How many bindings were handed out since the start.
    pub closed spec fn position(&self) -> nat {
        self.handed_out@
    }

    /// The aliases of every enumerator are representable: they are held in
    /// vectors.
    pub proof fn law_aliases_representable(&self)
        ensures
            representable(self.aliases()),
    {
        assert forall|j: int| 0 <= j < self.aliases().len() implies (
        #[trigger] self.aliases()[j]).candidates.len() <= usize::MAX by {
            let held = self.aliases@[j].candidates;
            assert(held@.len() == held.len());
        }
    }

    /// The counters agree with the number of bindings handed out.
    pub closed spec fn wf(&self) -> bool {
        &&& self.handed_out@ <= product(places(self.aliases())).len()
        &&& self.finished ==> self.handed_out@ == product(places(self.aliases())).len()
        &&& !self.finished ==> pending(self.running) == product(places(self.aliases())).skip(
            self.handed_out@ as int,
        )
    }

    /// The bindings that are still to come, next one first.
    pub open spec fn remaining(&self) -> Seq<BindingView> {
        all_bindings(self.aliases()).skip(self.position() as int)
    }

    /// An enumerator at the first binding of the aliases.
    pub fn new(aliases: Vec<Alias>) -> (enumerator: BindingEnumerator)
        ensures
            enumerator.wf(),
            enumerator.aliases() == alias_views(aliases@),
            enumerator.position() == 0,
    {
        let lists = place_lists(&aliases);
        let running = start_product(lists);
        let enumerator = BindingEnumerator {
            aliases,
            running,
            handed_out: Ghost(0),
            finished: false,
        };
        assert(product(places(enumerator.aliases())).skip(0) == product(
            places(enumerator.aliases()),
        ));
        enumerator
    }

    /// Goes back to the first binding.
    pub fn restart(&mut self)
        requires
            old(self).wf(),
        ensures
            final(self).wf(),
            final(self).aliases() == old(self).aliases(),
            final(self).position() == 0,
    {
        let lists = place_lists(&self.aliases);
        self.running = start_product(lists);
        self.handed_out = Ghost(0);
        self.finished = false;
        assert(product(places(self.aliases())).skip(0) == product(places(self.aliases())));
    }

    /// The names of the aliases, in the order of each binding's entries.
    pub fn keys(&self) -> (names: Vec<String>)
        ensures
            names@.len() == self.aliases().len(),
            forall|j: int| 0 <= j < names@.len() ==> (#[trigger] names@[j])@ == self.aliases()[j].name,
    {
        let mut names: Vec<String> = Vec::new();
        let mut j: usize = 0;
        while j < self.aliases.len()
            invariant
                j <= self.aliases@.len(),
                names@.len() == j,
                forall|k: int| 0 <= k < j ==> (#[trigger] names@[k])@ == self.aliases@[k].name@,
            decreases self.aliases@.len() - j,
        {
            names.push(self.aliases[j].name.clone());
            j += 1;
        }
        names
    }

    /// Hands out the next binding, or `None` when all were handed out.
    pub fn next_binding(&mut self) -> (binding: Option<Binding>)
        requires
            old(self).wf(),
        ensures
            final(self).wf(),
            final(self).aliases() == old(self).aliases(),
            match binding {
                Some(binding) => {
                    &&& old(self).remaining().len() > 0
                    &&& binding@ == old(self).remaining()[0]
                    &&& final(self).position() == old(self).position() + 1
                },
                None => {
                    &&& old(self).remaining().len() == 0
                    &&& final(self).position() == old(self).position()
                },
            },
    {
        if self.finished {
            return None;
        }
        let ghost lists = places(self.aliases());
        let ghost at = self.handed_out@ as int;
        let tuple = match next_tuple(&mut self.running) {
            Some(tuple) => tuple,
            None => {
                self.finished = true;
                return None;
            },
        };
        proof {
            assert(product(lists).skip(at).drop_first() == product(lists).skip(at + 1));
            assert forall|j: int| 0 <= j < lists.len() implies tuple@.len() == lists.len() && 0
                <= #[trigger] tuple@[j] < self.aliases@[j].candidates@.len() by {
                lemma_tuple_entry(lists, at, j);
            }
            lemma_tuple_entry(lists, at, 0);
        }
        let mut entries: Vec<(String, Locator)> = Vec::new();
        let mut j: usize = 0;
        while j < self.aliases.len()
            invariant
                j <= self.aliases@.len(),
                tuple@.len() == self.aliases@.len(),
                forall|k: int|
                    0 <= k < self.aliases@.len() ==> 0 <= #[trigger] tuple@[k]
                        < self.aliases@[k].candidates@.len(),
                entries@.len() == j,
                forall|k: int|
                    0 <= k < j ==> (#[trigger] entries@[k]).0@ == self.aliases@[k].name@
                        && entries@[k].1@ == self.aliases@[k].candidates@[tuple@[k] as int]@,
            decreases self.aliases@.len() - j,
        {
            let alias = &self.aliases[j];
            entries.push((alias.name.clone(), alias.candidates[tuple[j]].duplicate()));
            j += 1;
        }
        self.handed_out = Ghost((at + 1) as nat);
        let binding = Binding { entries };
        Some(binding)
    }
}

/// Each alias has no more candidates than a vector can hold, as the aliases
/// of every enumerator do.
pub open spec fn representable(aliases: Seq<AliasView>) -> bool {
    forall|j: int| 0 <= j < aliases.len() ==> (#[trigger] aliases[j]).candidates.len() <= usize::MAX
}

/// There are as many bindings as the product of the aliases' candidate
/// counts says; without aliases there is none.
pub proof fn law_binding_count(aliases: Seq<AliasView>)
    ensures
        all_bindings(aliases).len() == instance_count(aliases),
{
}

/// An alias without candidates leaves no binding at all.
pub proof fn law_empty_alias_no_bindings(aliases: Seq<AliasView>, j: int)
    requires
        0 <= j < aliases.len(),
        aliases[j].candidates.len() == 0,
    ensures
        all_bindings(aliases).len() == 0,
        instance_count(aliases) == 0,
{
    lemma_empty_list_no_tuples(places(aliases), j);
}

/// Every binding has one entry for each alias, under the alias's name, and
/// the entry is one of the alias's candidates: the one at the place that the
/// binding's number gives.
pub proof fn law_binding_complete(aliases: Seq<AliasView>, i: int, j: int)
    requires
        representable(aliases),
        0 <= i < all_bindings(aliases).len(),
        0 <= j < aliases.len(),
    ensures
        all_bindings(aliases)[i].len() == aliases.len(),
        0 <= digit(places(aliases), i, j) < aliases[j].candidates.len(),
        all_bindings(aliases)[i][j] == (
            aliases[j].name,
            aliases[j].candidates[digit(places(aliases), i, j)],
        ),
{
    lemma_tuple_entry(places(aliases), i, j);
}

/// No combination is left out: whatever candidate is picked for each alias,
/// some binding holds exactly these.
pub proof fn law_no_omission(aliases: Seq<AliasView>, choice: Seq<int>)
    requires
        representable(aliases),
        aliases.len() > 0,
        is_choice(places(aliases), choice),
    ensures
        0 <= index_of(places(aliases), choice) < all_bindings(aliases).len(),
        all_bindings(aliases)[index_of(places(aliases), choice)] == Seq::new(
            aliases.len(),
            |j: int| (aliases[j].name, aliases[j].candidates[choice[j]]),
        ),
{
    let lists = places(aliases);
    let i = index_of(lists, choice);
    lemma_found(lists, choice);
    assert forall|j: int| 0 <= j < aliases.len() implies #[trigger] all_bindings(aliases)[i][j] == (
        aliases[j].name,
        aliases[j].candidates[choice[j]],
    ) by {
        lemma_tuple_entry(lists, i, j);
    }
}

/// No combination comes twice: two bindings with different numbers pick a
/// different candidate for at least one alias.
pub proof fn law_no_duplicate(aliases: Seq<AliasView>, a: int, b: int) -> (j: int)
    requires
        representable(aliases),
        0 <= a < all_bindings(aliases).len(),
        0 <= b < all_bindings(aliases).len(),
        a != b,
    ensures
        0 <= j < aliases.len(),
        digit(places(aliases), a, j) != digit(places(aliases), b, j),
        product(places(aliases))[a] != product(places(aliases))[b],
{
    let lists = places(aliases);
    let j = lemma_distinct(lists, a, b);
    lemma_tuple_entry(lists, a, j);
    lemma_tuple_entry(lists, b, j);
    j
}

/// No two aliases have the same name, as in a map from names to
/// candidates.
pub open spec fn distinct_names(aliases: Seq<AliasView>) -> bool {
    forall|i: int, j: int|
        0 <= i < j < aliases.len() ==> (#[trigger] aliases[i]).name != (#[trigger] aliases[j]).name
}

/// A binding whose first entry under a name is entry `j` gives the name the
/// asset of that entry.
pub proof fn lemma_bound_first(binding: BindingView, alias: Seq<char>, j: int)
    requires
        0 <= j < binding.len(),
        binding[j].0 == alias,
        forall|k: int| 0 <= k < j ==> (#[trigger] binding[k]).0 != alias,
    ensures
        bound(binding, alias) == Some(binding[j].1),
    decreases binding.len(),
{
    if j > 0 {
        let rest = binding.drop_first();
        lemma_bound_first(rest, alias, j - 1);
    }
}

/// Where no two aliases have the same name, every binding gives each alias
/// exactly the candidate that was picked for it.
pub proof fn law_distinct_names_bind_exactly(aliases: Seq<AliasView>, i: int, j: int)
    requires
        representable(aliases),
        distinct_names(aliases),
        0 <= i < all_bindings(aliases).len(),
        0 <= j < aliases.len(),
    ensures
        bound(all_bindings(aliases)[i], aliases[j].name) == Some(
            aliases[j].candidates[digit(places(aliases), i, j)],
        ),
{
    let binding = all_bindings(aliases)[i];
    law_binding_complete(aliases, i, j);
    lemma_bound_first(binding, aliases[j].name, j);
}

/// A binding with an entry under a name gives that name an asset.
pub proof fn lemma_bound_some(binding: BindingView, alias: Seq<char>, j: int)
    requires
        0 <= j < binding.len(),
        binding[j].0 == alias,
    ensures
        bound(binding, alias) is Some,
    decreases binding.len(),
{
    if binding[0].0 != alias {
        lemma_bound_some(binding.drop_first(), alias, j - 1);
    }
}

/// Every binding gives every alias an asset: a layer that refers to one of
/// the aliases is never left without its asset.
pub proof fn law_binding_binds_every_alias(aliases: Seq<AliasView>, i: int, j: int)
    requires
        representable(aliases),
        0 <= i < all_bindings(aliases).len(),
        0 <= j < aliases.len(),
    ensures
        bound(all_bindings(aliases)[i], aliases[j].name) is Some,
{
    lemma_bound_some(all_bindings(aliases)[i], aliases[j].name, j);
}

/// An enumerator over all bindings of the aliases, at the first of them.
/// Aliases with different names stay so: each binding then gives every
/// alias exactly the candidate picked for it.
pub fn iter_alias_binds(aliases: Vec<Alias>) -> (enumerator: BindingEnumerator)
    ensures
        enumerator.wf(),
        distinct_names(alias_views(aliases@)) ==> distinct_names(enumerator.aliases()),
        enumerator.aliases() == alias_views(aliases@),
        enumerator.position() == 0,
{
    BindingEnumerator::new(aliases)
}

} // verus!
