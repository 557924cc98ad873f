//! Templates: a canvas, a stack of layers, and the aliases that the layers
//! refer to.

use vstd::prelude::*;
use vstd::string::*;

use crate::text::{decimal, decimal_text, lemma_decimal_digits, lemma_decimal_injective, texts};

verus! {

/// The number that stands for the factor one in `Opacity` and `Scale`.
pub const UNIT: u32 = 65536;

/// The thousandths of a degree in a full turn.
pub const FULL_TURN: i64 = 360000;

/// How much of a layer shows, in 65536ths: 0 hides it, `UNIT` and more show
/// it as it is.
#[derive(Debug, Clone, Copy, PartialEq, Eq, Structural)]
pub struct Opacity(pub u32);

impl Default for Opacity {
    fn default() -> (opacity: Opacity)
        ensures
            opacity == Opacity(UNIT),
    {
        Opacity(UNIT)
    }
}

/// The factor by which a layer's sides grow, in 65536ths.
#[derive(Debug, Clone, Copy, PartialEq, Eq, Structural)]
pub struct Scale(pub u32);

impl Default for Scale {
    fn default() -> (scale: Scale)
        ensures
            scale == Scale(UNIT),
    {
        Scale(UNIT)
    }
}

/// A clockwise turn, in thousandths of a degree.
#[derive(Debug, Clone, Copy, PartialEq, Eq, Structural)]
pub struct Degrees(pub i64);

impl Default for Degrees {
    fn default() -> (degrees: Degrees)
        ensures
            degrees == Degrees(0),
    {
        Degrees(0)
    }
}

impl Degrees {
    /// The turn within one full turn that ends where this one ends.
    pub open spec fn spec_normalized(self) -> int {
        self.0 as int % (FULL_TURN as int)
    }

    /// The turn within one full turn that ends where this one ends: a number
    /// from 0 up to, but not including, `FULL_TURN`.
    pub fn normalized(self) -> (turn: i64)
        ensures
            turn == self.spec_normalized(),
            0 <= turn < FULL_TURN,
    {
        let rest = self.0 % FULL_TURN;
        if rest < 0 {
            rest + FULL_TURN
        } else {
            rest
        }
    }

    /// Whether the turn leaves everything where it is: a whole number of
    /// full turns.
    pub fn is_identity(self) -> (still: bool)
        ensures
            still == (self.spec_normalized() == 0),
    {
        self.normalized() == 0
    }
}

/// How a layer is moved before it is painted.
#[derive(Debug, Clone, Copy)]
pub struct Transform {
    /// The `(x, y)` offset in pixels.
    pub offset: (i64, i64),
    /// The factor by which both sides grow.
    pub scale: Scale,
    /// The clockwise turn about the layer's centre.
    pub rotate: Degrees,
}

impl Default for Transform {
    fn default() -> (transform: Transform)
        ensures
            transform == (Transform { offset: (0, 0), scale: Scale(UNIT), rotate: Degrees(0) }),
    {
        Transform { offset: (0, 0), scale: Scale(UNIT), rotate: Degrees(0) }
    }
}

/// How a layer's colours meet those below it. Every mode paints as
/// `Normal` does.
#[derive(Debug, Clone, Copy, PartialEq, Eq, Structural)]
pub enum BlendMode {
    Normal,
    Multiply,
    Overlay,
}

impl Default for BlendMode {
    fn default() -> (mode: BlendMode)
        ensures
            mode == BlendMode::Normal,
    {
        BlendMode::Normal
    }
}

/// One layer of a template: an alias and how its asset is painted.
#[derive(Debug, Clone)]
pub struct Layer {
    pub reference: String,
    pub transform: Transform,
    pub blend_mode: BlendMode,
    pub opacity: Opacity,
}

/// A layer as plain values.
pub struct LayerView {
    pub reference: Seq<char>,
    pub transform: Transform,
    pub blend_mode: BlendMode,
    pub opacity: Opacity,
}

impl View for Layer {
    type V = LayerView;

    open spec fn view(&self) -> LayerView {
        LayerView {
            reference: self.reference@,
            transform: self.transform,
            blend_mode: self.blend_mode,
            opacity: self.opacity,
        }
    }
}

impl Layer {
    /// A layer that paints the asset of `reference` as it is, in the middle
    /// of the canvas.
    pub fn new(reference: &str) -> (layer: Layer)
        ensures
            layer@ == (LayerView {
                reference: reference@,
                transform: Transform { offset: (0, 0), scale: Scale(UNIT), rotate: Degrees(0) },
                blend_mode: BlendMode::Normal,
                opacity: Opacity(UNIT),
            }),
    {
        Layer {
            reference: String::from_str(reference),
            transform: Transform::default(),
            blend_mode: BlendMode::default(),
            opacity: Opacity::default(),
        }
    }
}

/// An alias of a template with the references that may stand for it.
#[derive(Debug, Clone)]
pub struct AliasEntry {
    pub name: String,
    pub references: Vec<String>,
}

/// An alias entry as plain text.
pub struct AliasEntryView {
    pub name: Seq<char>,
    pub references: Seq<Seq<char>>,
}

impl View for AliasEntry {
    type V = AliasEntryView;

    open spec fn view(&self) -> AliasEntryView {
        AliasEntryView {
            name: self.name@,
            references: texts(self.references@),
        }
    }
}

/// A stack of layers on a canvas, and the aliases that the layers refer to.
/// The aliases are kept in the order in which they were given.
#[derive(Debug)]
pub struct Template {
    pub aliases: Vec<AliasEntry>,
    pub layers: Vec<Layer>,
    pub canvas_size: (u32, u32),
}

/// A template as plain values.
pub struct TemplateView {
    pub aliases: Seq<AliasEntryView>,
    pub layers: Seq<LayerView>,
    pub canvas_size: (u32, u32),
}

impl View for Template {
    type V = TemplateView;

    open spec fn view(&self) -> TemplateView {
        TemplateView {
            aliases: Seq::new(self.aliases@.len(), |i: int| self.aliases@[i]@),
            layers: Seq::new(self.layers@.len(), |i: int| self.layers@[i]@),
            canvas_size: self.canvas_size,
        }
    }
}

/// A name with `_` put in after its first character. The empty name
/// becomes `_`.
pub open spec fn marked(name: Seq<char>) -> Seq<char> {
    if name.len() == 0 {
        seq!['_']
    } else {
        seq![name[0], '_'] + name.subrange(1, name.len() as int)
    }
}

/// Whether a layer's reference names an alias: it begins with `$`.
pub open spec fn names_alias(reference: Seq<char>) -> bool {
    reference.len() > 0 && reference[0] == '$'
}

/// The name of the alias that is made for the layer with this number among
/// the layers that name an asset themselves: `$` and the number.
pub open spec fn auto_alias(number: nat) -> Seq<char> {
    seq!['$'] + decimal(number)
}

/// How many of the first `count` layers name an asset themselves.
pub open spec fn direct_before(layers: Seq<LayerView>, count: nat) -> nat
    decreases count,
{
    if count == 0 {
        0
    } else if names_alias(layers[count - 1].reference) {
        direct_before(layers, (count - 1) as nat)
    } else {
        direct_before(layers, (count - 1) as nat) + 1
    }
}

/// The aliases that are made for the first `count` layers: one for each
/// layer that names an asset itself, holding that asset.
pub open spec fn added_aliases(layers: Seq<LayerView>, count: nat) -> Seq<AliasEntryView>
    decreases count,
{
    if count == 0 {
        Seq::empty()
    } else if names_alias(layers[count - 1].reference) {
        added_aliases(layers, (count - 1) as nat)
    } else {
        added_aliases(layers, (count - 1) as nat).push(
            AliasEntryView {
                name: auto_alias(direct_before(layers, (count - 1) as nat)),
                references: seq![layers[count - 1].reference],
            },
        )
    }
}

/// Layer `i` after normalizing: it refers to its alias under the marked
/// name, or to the alias that was made for it.
pub open spec fn normalized_layer(layers: Seq<LayerView>, i: int) -> LayerView {
    LayerView {
        reference: if names_alias(layers[i].reference) {
            marked(layers[i].reference)
        } else {
            auto_alias(direct_before(layers, i as nat))
        },
        transform: layers[i].transform,
        blend_mode: layers[i].blend_mode,
        opacity: layers[i].opacity,
    }
}

/// The aliases of the template under their marked names.
pub open spec fn marked_aliases(aliases: Seq<AliasEntryView>) -> Seq<AliasEntryView> {
    Seq::new(
        aliases.len(),
        |j: int| AliasEntryView { name: marked(aliases[j].name), references: aliases[j].references },
    )
}

/// The template in which every layer refers to an alias: the aliases that
/// were there carry a `_` after their first character, so that none of them
/// is named like the aliases `$0`, `$1`, ... that are made, in the layers'
/// order, for the layers that named an asset themselves.
pub open spec fn normalized(template: TemplateView) -> TemplateView {
    TemplateView {
        aliases: marked_aliases(template.aliases) + added_aliases(
            template.layers,
            template.layers.len(),
        ),
        layers: Seq::new(template.layers.len(), |i: int| normalized_layer(template.layers, i)),
        canvas_size: template.canvas_size,
    }
}

/// The aliases made for layers are numbered from 0 in their order.
pub proof fn lemma_added_aliases(layers: Seq<LayerView>, count: nat)
    ensures
        added_aliases(layers, count).len() == direct_before(layers, count),
        forall|k: int|
            0 <= k < direct_before(layers, count) ==> (#[trigger] added_aliases(layers, count)[k]).name
                == auto_alias(k as nat),
    decreases count,
{
    if count > 0 {
        lemma_added_aliases(layers, (count - 1) as nat);
    }
}

/// Marking keeps different names different.
pub proof fn lemma_marked_injective(one: Seq<char>, other: Seq<char>)
    requires
        marked(one) == marked(other),
    ensures
        one == other,
{
    if one.len() > 0 && other.len() > 0 {
        let a = marked(one);
        assert(a.len() == one.len() + 1);
        assert(one[0] == a[0]);
        assert forall|k: int| 0 <= k < one.len() implies one[k] == other[k] by {
            if k > 0 {
                assert(a[k + 1] == one[k]);
            }
        }
    } else if one.len() > 0 {
        assert(marked(one).len() >= 2);
    } else if other.len() > 0 {
        assert(marked(other).len() >= 2);
    }
}

/// No marked name is the name of an alias made for a layer.
pub proof fn lemma_marked_not_auto(name: Seq<char>, number: nat)
    ensures
        marked(name) != auto_alias(number),
{
    lemma_decimal_digits(number, 0);
    if name.len() == 0 {
        assert(marked(name)[0] == '_');
    } else {
        assert(marked(name)[1] == '_');
    }
}

/// Normalizing a template whose aliases have different names gives one
/// whose aliases have different names.
pub proof fn law_normalized_distinct(template: TemplateView)
    requires
        template.distinct_aliases(),
    ensures
        normalized(template).distinct_aliases(),
{
    let after = normalized(template).aliases;
    let kept = template.aliases.len() as int;
    let layers = template.layers;
    lemma_added_aliases(layers, layers.len());
    assert forall|i: int, j: int| 0 <= i < j < after.len() implies (#[trigger] after[i]).name != (
    #[trigger] after[j]).name by {
        if j < kept {
            if after[i].name == after[j].name {
                lemma_marked_injective(template.aliases[i].name, template.aliases[j].name);
            }
        } else if i < kept {
            lemma_marked_not_auto(template.aliases[i].name, (j - kept) as nat);
        } else {
            if after[i].name == after[j].name {
                let a = auto_alias((i - kept) as nat);
                let b = auto_alias((j - kept) as nat);
                assert(a.drop_first() =~= decimal((i - kept) as nat));
                assert(b.drop_first() =~= decimal((j - kept) as nat));
                lemma_decimal_injective((i - kept) as nat, (j - kept) as nat);
            }
        }
    }
}

/// The number of layers that name an asset themselves grows with the
/// layers that are counted.
pub proof fn lemma_direct_before_grows(layers: Seq<LayerView>, fewer: nat, more: nat)
    requires
        fewer <= more,
    ensures
        direct_before(layers, fewer) <= direct_before(layers, more),
    decreases more,
{
    if fewer < more {
        lemma_direct_before_grows(layers, fewer, (more - 1) as nat);
    }
}

impl TemplateView {
    /// Whether some alias of the template has this name.
    pub open spec fn has_alias(self, name: Seq<char>) -> bool {
        exists|k: int| 0 <= k < self.aliases.len() && (#[trigger] self.aliases[k]).name == name
    }

    /// Every layer that refers to an alias refers to one of the template.
    pub open spec fn aliases_known(self) -> bool {
        forall|i: int|
            0 <= i < self.layers.len() && names_alias((#[trigger] self.layers[i]).reference)
                ==> self.has_alias(self.layers[i].reference)
    }

    /// Every layer refers to an alias of the template.
    pub open spec fn closed(self) -> bool {
        forall|i: int|
            0 <= i < self.layers.len() ==> self.has_alias((#[trigger] self.layers[i]).reference)
    }
}

/// After normalizing, every layer refers to an alias of the template, if
/// the layers that referred to an alias before referred to one of the
/// template.
pub proof fn law_normalized_closed(template: TemplateView)
    requires
        template.aliases_known(),
    ensures
        normalized(template).closed(),
{
    let after = normalized(template);
    let layers = template.layers;
    let kept = template.aliases.len() as int;
    lemma_added_aliases(layers, layers.len());
    assert forall|i: int| 0 <= i < after.layers.len() implies after.has_alias(
        (#[trigger] after.layers[i]).reference,
    ) by {
        let given = layers[i].reference;
        if names_alias(given) {
            let k = choose|k: int|
                0 <= k < template.aliases.len() && (#[trigger] template.aliases[k]).name == given;
            assert(after.aliases[k].name == marked(given));
        } else {
            let number = direct_before(layers, i as nat);
            lemma_direct_before_grows(layers, (i + 1) as nat, layers.len());
            assert(after.aliases[kept + number] == added_aliases(layers, layers.len())[
                number as int
            ]);
        }
    }
}

/// A second vector with the same strings.
pub fn copy_texts(strings: &Vec<String>) -> (copy: Vec<String>)
    ensures
        texts(copy@) == texts(strings@),
{
    let mut copy: Vec<String> = Vec::new();
    let mut i: usize = 0;
    while i < strings.len()
        invariant
            i <= strings@.len(),
            copy@.len() == i,
            forall|k: int| 0 <= k < i ==> (#[trigger] copy@[k])@ == strings@[k]@,
        decreases strings@.len() - i,
    {
        copy.push(strings[i].clone());
        i += 1;
    }
    copy
}

/// The name with `_` put in after its first character.
pub fn mark(name: &str) -> (result: String)
    ensures
        result@ == marked(name@),
{
    let n = name.unicode_len();
    if n == 0 {
        proof {
            reveal_strlit("_");
        }
        let result = String::from_str("_");
        result
    } else {
        proof {
            reveal_strlit("_");
        }
        let result = String::from_str(name.substring_char(0, 1)).concat("_").concat(
            name.substring_char(1, n),
        );
        result
    }
}

/// Whether the reference begins with `$`.
pub fn begins_with_dollar(reference: &str) -> (begins: bool)
    ensures
        begins == names_alias(reference@),
{
    reference.unicode_len() > 0 && reference.get_char(0) == '$'
}

/// The name `$` and the number.
pub fn auto_name(number: usize) -> (name: String)
    ensures
        name@ == auto_alias(number as nat),
{
    proof {
        reveal_strlit("$");
    }
    let digits = decimal_text(number);
    let name = String::from_str("$").concat(digits.as_str());
    name
}

impl Template {
    /// Makes every layer refer to an alias. The aliases that are there get
    /// a `_` after their first character, and so do the layers' references
    /// to them. Each layer that names an asset itself gets an alias of its
    /// own, `$0`, `$1`, ... in the layers' order, which holds that asset.
    /// Aliases that had different names keep different names.
    pub fn normalize_use_refs(&mut self)
        ensures
            final(self)@ == normalized(old(self)@),
            old(self)@.distinct_aliases() ==> final(self)@.distinct_aliases(),
            old(self)@.aliases_known() ==> final(self)@.closed(),
    {
        proof {
            if old(self)@.distinct_aliases() {
                law_normalized_distinct(old(self)@);
            }
            if old(self)@.aliases_known() {
                law_normalized_closed(old(self)@);
            }
        }
        let mut aliases: Vec<AliasEntry> = Vec::new();
        let mut j: usize = 0;
        while j < self.aliases.len()
            invariant
                j <= self.aliases@.len(),
                aliases@.len() == j,
                forall|k: int|
                    0 <= k < j ==> (#[trigger] aliases@[k])@ == marked_aliases(self@.aliases)[k],
            decreases self.aliases@.len() - j,
        {
            let entry = &self.aliases[j];
            let renamed = AliasEntry {
                name: mark(entry.name.as_str()),
                references: copy_texts(&entry.references),
            };
            aliases.push(renamed);
            j += 1;
        }
        let ghost kept = Seq::new(aliases@.len(), |k: int| aliases@[k]@);
        assert(kept =~= marked_aliases(self@.aliases));
        let mut layers: Vec<Layer> = Vec::new();
        let mut number: usize = 0;
        let mut i: usize = 0;
        while i < self.layers.len()
            invariant
                i <= self.layers@.len(),
                number == direct_before(self@.layers, i as nat),
                number <= i,
                layers@.len() == i,
                forall|k: int|
                    0 <= k < i ==> (#[trigger] layers@[k])@ == normalized_layer(self@.layers, k),
                Seq::new(aliases@.len(), |k: int| aliases@[k]@) == kept + added_aliases(
                    self@.layers,
                    i as nat,
                ),
            decreases self.layers@.len() - i,
        {
            let layer = &self.layers[i];
            let ghost before = Seq::new(aliases@.len(), |k: int| aliases@[k]@);
            if begins_with_dollar(layer.reference.as_str()) {
                layers.push(
                    Layer {
                        reference: mark(layer.reference.as_str()),
                        transform: layer.transform,
                        blend_mode: layer.blend_mode,
                        opacity: layer.opacity,
                    },
                );
            } else {
                let name = auto_name(number);
                let mut references: Vec<String> = Vec::new();
                references.push(layer.reference.clone());
                let made = AliasEntry { name: name.clone(), references };
                assert(made@.references =~= seq![self@.layers[i as int].reference]);
                aliases.push(made);
                assert(Seq::new(aliases@.len(), |k: int| aliases@[k]@) =~= before.push(made@));
                layers.push(
                    Layer {
                        reference: name,
                        transform: layer.transform,
                        blend_mode: layer.blend_mode,
                        opacity: layer.opacity,
                    },
                );
                number += 1;
            }
            i += 1;
        }
        self.aliases = aliases;
        self.layers = layers;
        assert(self@.layers =~= normalized(old(self)@).layers);
    }
}

impl TemplateView {
    /// No alias is named twice.
    pub open spec fn distinct_aliases(self) -> bool {
        forall|i: int, j: int|
            0 <= i < j < self.aliases.len() ==> (#[trigger] self.aliases[i]).name
                != (#[trigger] self.aliases[j]).name
    }
}

} // verus!
