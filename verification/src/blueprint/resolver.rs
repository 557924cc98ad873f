//! From a reference to the assets that it stands for.

use vstd::prelude::*;
use vstd::std_specs::iter::IteratorSpec;
use vstd::string::*;

use crate::blueprint::locator::{Locator, LocatorView};
use crate::text::{same_text, texts};

verus! {

/// The error of the glob parser. What is inside is not looked at.
#[verifier::external_type_specification]
#[verifier::external_body]
pub struct ExGlobError(globset::Error);

/// The deepest that the alternatives of a pattern handed to the glob
/// compiler are nested. The library refuses deeper patterns itself, whether
/// or not the compiler would compile them: the parser would exhaust its
/// stack on alternatives nested thousands deep. The compiler has a limit of
/// its own on the groups that it writes, so that most of what is refused
/// here it would refuse too; alternatives that write no group, as empty
/// ones do not, it would compile as deep as its stack bears. Up to the
/// limit the compiler says itself what it does not compile.
pub const MAX_GLOB_NESTING: usize = 250;

/// Where a reader of a glob pattern stands: in the open, behind a `\` that
/// takes the next character literally, or inside `[...]`, where braces are
/// characters like any other.
#[derive(Debug, Clone, Copy, PartialEq, Eq, Structural)]
pub enum Reading {
    Open,
    Escaped,
    ClassBegin,
    ClassFirst,
    Class,
}

/// Where the reader stands after a character, and how deep in `{...}`.
/// `escapes` says whether `\` takes the next character literally; where it
/// does not, `\` is a character like any other.
pub open spec fn read(state: Reading, depth: nat, c: char, escapes: bool) -> (Reading, nat) {
    match state {
        Reading::Escaped => (Reading::Open, depth),
        Reading::ClassBegin => if c == '!' || c == '^' {
            (Reading::ClassFirst, depth)
        } else {
            (Reading::Class, depth)
        },
        Reading::ClassFirst => (Reading::Class, depth),
        Reading::Class => if c == ']' {
            (Reading::Open, depth)
        } else {
            (Reading::Class, depth)
        },
        Reading::Open => if c == '\\' && escapes {
            (Reading::Escaped, depth)
        } else if c == '[' {
            (Reading::ClassBegin, depth)
        } else if c == '{' {
            (Reading::Open, depth + 1)
        } else if c == '}' && depth > 0 {
            (Reading::Open, (depth - 1) as nat)
        } else {
            (Reading::Open, depth)
        },
    }
}

/// The deepest nesting that is reached from place `at` on, the depth at
/// `at` included.
pub open spec fn deepest(text: Seq<char>, at: int, state: Reading, depth: nat, escapes: bool) -> nat
    decreases text.len() - at,
{
    if at < 0 || at >= text.len() {
        depth
    } else {
        let next = read(state, depth, text[at], escapes);
        let rest = deepest(text, at + 1, next.0, next.1, escapes);
        if rest > depth {
            rest
        } else {
            depth
        }
    }
}

/// How deep the alternatives `{...}` of a pattern are nested.
pub open spec fn nesting(pattern: Seq<char>, escapes: bool) -> nat {
    deepest(pattern, 0, Reading::Open, 0, escapes)
}

/// Whether the pattern is one that the glob compiler can be asked about:
/// its alternatives are nested no deeper than the compiler's own limit,
/// whichever way `\` is read.
pub open spec fn askable(pattern: Seq<char>) -> bool {
    nesting(pattern, true) <= MAX_GLOB_NESTING && nesting(pattern, false) <= MAX_GLOB_NESTING
}

/// Whether the text is free of `\`, which some systems read as a path
/// separator and others as an escape.
pub open spec fn plain(text: Seq<char>) -> bool {
    forall|i: int| 0 <= i < text.len() ==> text[i] != '\\'
}

/// The longest pattern of which it is certain that every system compiles it
/// alike. The compiler's memory limit is counted in the machine's words, so
/// that very large patterns may compile on one machine and not on another;
/// a pattern of this length is far below that limit everywhere. Longer
/// patterns are compiled and asked all the same.
pub const MAX_SETTLED_GLOB: usize = 4096;

/// Whether the pattern is short enough that every machine's compiler has
/// the memory for it.
pub open spec fn sized(pattern: Seq<char>) -> bool {
    pattern.len() <= MAX_SETTLED_GLOB
}

/// Whether every system reads and compiles the pattern alike: it holds no
/// `\` and is no longer than `MAX_SETTLED_GLOB`.
pub open spec fn settled(pattern: Seq<char>) -> bool {
    plain(pattern) && sized(pattern)
}

/// In a text without `\` the nesting is the same whichever way `\` is
/// read.
pub proof fn lemma_plain_nesting(text: Seq<char>, at: int, state: Reading, depth: nat)
    requires
        plain(text),
        state != Reading::Escaped,
    ensures
        deepest(text, at, state, depth, true) == deepest(text, at, state, depth, false),
    decreases text.len() - at,
{
    if 0 <= at < text.len() {
        let next = read(state, depth, text[at], true);
        lemma_plain_nesting(text, at + 1, next.0, next.1);
    }
}

/// Whether the alternatives of the pattern are nested deeper than the
/// glob compiler's limit.
fn nests_too_deep(pattern: &str, escapes: bool) -> (deep: bool)
    ensures
        deep == (nesting(pattern@, escapes) > MAX_GLOB_NESTING),
{
    let n = pattern.unicode_len();
    let mut chars = pattern.chars();
    let mut state = Reading::Open;
    let mut depth: usize = 0;
    let mut best: usize = 0;
    let ghost mut i: int = 0;
    proof {
        broadcast use vstd::string::group_string_axioms;

    }
    loop
        invariant
            0 <= i <= pattern@.len(),
            n == pattern@.len(),
            chars.obeys_prophetic_iter_laws(),
            chars.remaining() == pattern@.skip(i),
            depth <= i,
            best <= i,
            nesting(pattern@, escapes) == if best >= deepest(
                pattern@,
                i,
                state,
                depth as nat,
                escapes,
            ) {
                best as nat
            } else {
                deepest(pattern@, i, state, depth as nat, escapes)
            },
        ensures
            i == pattern@.len(),
        decreases pattern@.len() - i,
    {
        let next = chars.next();
        proof {
            broadcast use vstd::string::group_string_axioms;

            if pattern@.len() - i > 0 {
            }
        }
        let c = match next {
            Some(c) => c,
            None => {
                break;
            },
        };
        if depth > best {
            best = depth;
        }
        if best > MAX_GLOB_NESTING {
            return true;
        }
        match state {
            Reading::Escaped => {
                state = Reading::Open;
            },
            Reading::ClassBegin => {
                if c == '!' || c == '^' {
                    state = Reading::ClassFirst;
                } else {
                    state = Reading::Class;
                }
            },
            Reading::ClassFirst => {
                state = Reading::Class;
            },
            Reading::Class => {
                if c == ']' {
                    state = Reading::Open;
                }
            },
            Reading::Open => {
                if c == '\\' && escapes {
                    state = Reading::Escaped;
                } else if c == '[' {
                    state = Reading::ClassBegin;
                } else if c == '{' {
                    depth += 1;
                } else if c == '}' && depth > 0 {
                    depth -= 1;
                }
            },
        }
        proof {
            i = i + 1;
        }
    }
    if depth > best {
        best = depth;
    }
    best > MAX_GLOB_NESTING
}

/// Whether the pattern is one that the glob compiler can be asked about.
/// For a pattern without `\` that is whether its alternatives are nested no
/// deeper than the compiler's limit.
pub fn is_askable(pattern: &str) -> (possible: bool)
    ensures
        possible == askable(pattern@),
        plain(pattern@) ==> possible == (nesting(pattern@, true) <= MAX_GLOB_NESTING),
{
    proof {
        if plain(pattern@) {
            lemma_plain_nesting(pattern@, 0, Reading::Open, 0);
        }
    }
    !nests_too_deep(pattern, true) && !nests_too_deep(pattern, false)
}

/// Whether the glob compiler accepts the pattern on a system that reads `\`
/// as a path separator (`separates`) or on one that does not.
pub uninterp spec fn glob_compiles(pattern: Seq<char>, separates: bool) -> bool;

/// Whether the glob pattern accepts the path on a system that reads `\` as
/// a path separator (`separates`) or on one that does not.
pub uninterp spec fn glob_matches(pattern: Seq<char>, path: Seq<char>, separates: bool) -> bool;

/// Whether the pattern can be compiled: its alternatives are nested no
/// deeper than `MAX_GLOB_NESTING`, beyond which the library refuses a
/// pattern itself, and the compiler accepts it. This is said of settled
/// patterns, which every system reads and compiles alike.
pub open spec fn compiles(pattern: Seq<char>) -> bool {
    askable(pattern) && glob_compiles(pattern, false)
}

/// Whether the pattern accepts the path. This is said of a pattern and a
/// path without `\`, which every system reads alike.
pub open spec fn accepts(pattern: Seq<char>, path: Seq<char>) -> bool {
    glob_matches(pattern, path, false)
}

/// Parses the pattern with `globset::Glob::new`, compiles it with
/// `GlobSetBuilder::build`, which hands back the compiler's error where
/// there is one, and asks `GlobSet::is_match` about each path. With the
/// verdicts comes what `std::path::is_separator` says of `\`: the parser and
/// the matcher read `\` by it. Whether a pattern compiles goes by its text
/// and that reading, but for patterns so long that the compiler's memory
/// limit, which is counted in the machine's words, may decide. What a
/// compiled pattern accepts goes by the texts and that reading alone. A
/// pattern and a path without `\` are read alike whatever the reading. A
/// pattern whose alternatives are nested thousands deep would exhaust the
/// parser's stack; the limit keeps those from it.
#[verifier::external_body]
fn pattern_verdicts(pattern: &str, paths: &Vec<String>) -> (answer: (
    bool,
    Result<Vec<bool>, globset::Error>,
))
    requires
        askable(pattern@),
    ensures
        sized(pattern@) ==> (answer.1 is Ok <==> glob_compiles(pattern@, answer.0)),
        settled(pattern@) ==> (answer.1 is Ok <==> glob_compiles(pattern@, false)),
        answer.1 matches Ok(verdicts) ==> {
            &&& verdicts@.len() == paths@.len()
            &&& forall|i: int|
                0 <= i < paths@.len() ==> #[trigger] verdicts@[i] == glob_matches(
                    pattern@,
                    paths@[i]@,
                    answer.0,
                )
            &&& forall|i: int|
                0 <= i < paths@.len() && plain(pattern@) && plain(paths@[i]@)
                    ==> #[trigger] verdicts@[i] == glob_matches(pattern@, paths@[i]@, false)
        },
{
    let compiled = globset::Glob::new(pattern).and_then(
        |glob| globset::GlobSetBuilder::new().add(glob).build(),
    );
    let verdicts = compiled.map(|set| paths.iter().map(|path| set.is_match(path)).collect());
    (std::path::is_separator('\\'), verdicts)
}

/// Why a reference could not be resolved.
#[derive(Debug, Clone, Copy, PartialEq, Eq, Structural)]
pub enum ReferenceError {
    /// The text before the delimiter names no pack of the catalog.
    UnknownReferenceKind,
    /// The text after the delimiter cannot be compiled as a glob pattern.
    InvalidGlob,
    /// The assets of the pack could not be listed.
    CatalogUnavailable,
}

/// What is known of one pack: its assets in catalog order, or that they
/// could not be listed.
#[derive(Debug, Clone)]
pub enum PackListing {
    Listed(Vec<String>),
    Unavailable,
}

/// A pack of the catalog.
#[derive(Debug, Clone)]
pub struct CatalogPack {
    pub pack: String,
    pub listing: PackListing,
}

/// The packs that references can name, as they were found when a run began.
#[derive(Debug, Clone)]
pub struct Catalog {
    pub packs: Vec<CatalogPack>,
}

/// A pack of the catalog as plain text: its name, and its assets if they
/// could be listed.
pub type CatalogView = Seq<(Seq<char>, Option<Seq<Seq<char>>>)>;

impl View for PackListing {
    type V = Option<Seq<Seq<char>>>;

    open spec fn view(&self) -> Option<Seq<Seq<char>>> {
        match self {
            PackListing::Listed(paths) => Some(texts(paths@)),
            PackListing::Unavailable => None,
        }
    }
}

impl View for Catalog {
    type V = CatalogView;

    open spec fn view(&self) -> CatalogView {
        Seq::new(self.packs@.len(), |i: int| (self.packs@[i].pack@, self.packs@[i].listing@))
    }
}

/// What the catalog knows of the pack: the entry of the first pack of that
/// name, or `None` where there is no such pack.
pub open spec fn listing_of(catalog: CatalogView, pack: Seq<char>) -> Option<Option<Seq<Seq<char>>>>
    decreases catalog.len(),
{
    if catalog.len() == 0 {
        None
    } else if catalog[0].0 == pack {
        Some(catalog[0].1)
    } else {
        listing_of(catalog.drop_first(), pack)
    }
}

impl Catalog {
    /// What the catalog knows of the pack.
    pub fn listing(&self, pack: &str) -> (found: Option<&PackListing>)
        ensures
            match found {
                Some(listing) => listing_of(self@, pack@) == Some(listing@),
                None => listing_of(self@, pack@) is None,
            },
    {
        let mut i: usize = 0;
        assert(self@.skip(0) == self@);
        while i < self.packs.len()
            invariant
                i <= self.packs@.len(),
                listing_of(self@, pack@) == listing_of(self@.skip(i as int), pack@),
            decreases self.packs@.len() - i,
        {
            assert(self@.skip(i as int).drop_first() == self@.skip(i + 1));
            if same_text(self.packs[i].pack.as_str(), pack) {
                return Some(&self.packs[i].listing);
            }
            i += 1;
        }
        None
    }
}

/// The place of the first `:` in the text, or the text's length where it
/// has none.
pub open spec fn delimiter(text: Seq<char>) -> int
    decreases text.len(),
{
    if text.len() == 0 {
        0
    } else if text[0] == ':' {
        0
    } else {
        1 + delimiter(text.drop_first())
    }
}

/// A reference taken apart.
#[derive(Debug, Clone)]
pub enum ParsedReference {
    /// The reference names one asset.
    Direct(String),
    /// The reference names a pack and, after the first `:`, a glob pattern.
    Scoped { pack: String, glob: String },
}

/// A reference taken apart, as plain text.
pub enum ParsedView {
    Direct(Seq<char>),
    Scoped { pack: Seq<char>, glob: Seq<char> },
}

impl View for ParsedReference {
    type V = ParsedView;

    open spec fn view(&self) -> ParsedView {
        match self {
            ParsedReference::Direct(path) => ParsedView::Direct(path@),
            ParsedReference::Scoped { pack, glob } => ParsedView::Scoped { pack: pack@, glob: glob@ },
        }
    }
}

/// The parts of a reference: without a `:` it names an asset; otherwise the
/// pack stands before the first `:` and the pattern after it.
pub open spec fn parsed(text: Seq<char>) -> ParsedView {
    let at = delimiter(text);
    if at >= text.len() {
        ParsedView::Direct(text)
    } else {
        ParsedView::Scoped {
            pack: text.subrange(0, at),
            glob: text.subrange(at + 1, text.len() as int),
        }
    }
}

proof fn lemma_delimiter(text: Seq<char>, at: int)
    requires
        0 <= at <= text.len(),
        forall|k: int| 0 <= k < at ==> text[k] != ':',
        at < text.len() ==> text[at] == ':',
    ensures
        delimiter(text) == at,
    decreases text.len(),
{
    if text.len() > 0 && at > 0 {
        let rest = text.drop_first();
        lemma_delimiter(rest, at - 1);
    }
}

/// Takes a reference apart at its first `:`.
pub fn parse_reference(reference: &str) -> (parts: ParsedReference)
    ensures
        parts@ == parsed(reference@),
{
    let n = reference.unicode_len();
    let mut chars = reference.chars();
    let mut at: usize = 0;
    proof {
        broadcast use vstd::string::group_string_axioms;

    }
    loop
        invariant
            at <= n,
            n == reference@.len(),
            chars.obeys_prophetic_iter_laws(),
            chars.remaining() == reference@.skip(at as int),
            forall|k: int| 0 <= k < at ==> reference@[k] != ':',
        ensures
            at == n,
        decreases n - at,
    {
        let next = chars.next();
        proof {
            broadcast use vstd::string::group_string_axioms;

            if at < n {
            }
        }
        let c = match next {
            Some(c) => c,
            None => {
                break;
            },
        };
        if c == ':' {
            proof {
                lemma_delimiter(reference@, at as int);
            }
            let pack = String::from_str(reference.substring_char(0, at));
            let glob = String::from_str(reference.substring_char(at + 1, n));
            return ParsedReference::Scoped { pack, glob };
        }
        at += 1;
    }
    proof {
        lemma_delimiter(reference@, at as int);
    }
    ParsedReference::Direct(String::from_str(reference))
}

/// The assets of a pack that were accepted, in the listing's order: those
/// among the first `count` paths whose verdict is `true`.
pub open spec fn selected(
    pack: Seq<char>,
    listing: Seq<Seq<char>>,
    verdicts: Seq<bool>,
    count: nat,
) -> Seq<LocatorView>
    decreases count,
{
    if count == 0 {
        Seq::empty()
    } else {
        let before = selected(pack, listing, verdicts, (count - 1) as nat);
        if verdicts[count - 1] {
            before.push(LocatorView { pack: Some(pack), path: listing[count - 1] })
        } else {
            before
        }
    }
}

/// The locators as plain text.
pub open spec fn locator_views(locators: Seq<Locator>) -> Seq<LocatorView> {
    Seq::new(locators.len(), |i: int| locators[i]@)
}

/// Picks from a pack's listing the paths whose verdict is `true`, in the
/// listing's order.
pub fn select_matching(pack: &str, listing: &Vec<String>, verdicts: &Vec<bool>) -> (chosen: Vec<
    Locator,
>)
    requires
        verdicts@.len() == listing@.len(),
    ensures
        locator_views(chosen@) == selected(pack@, texts(listing@), verdicts@, listing@.len()),
{
    let mut chosen: Vec<Locator> = Vec::new();
    let mut i: usize = 0;
    while i < listing.len()
        invariant
            i <= listing@.len(),
            verdicts@.len() == listing@.len(),
            locator_views(chosen@) == selected(pack@, texts(listing@), verdicts@, i as nat),
        decreases listing@.len() - i,
    {
        if verdicts[i] {
            chosen.push(Locator::packed(pack, listing[i].as_str()));
        }
        i += 1;
    }
    chosen
}

/// What a reference resolves to, given what the pattern said of the pack's
/// paths: `None` where the pattern could not be compiled, else one verdict
/// for each path.
///
/// A reference without `:` is the one asset that it names. Otherwise the
/// pack must be one of the catalog, the pattern must compile, and the
/// pack's assets must have been listed; the result is then the accepted
/// assets in catalog order.
pub open spec fn resolved_with(
    reference: Seq<char>,
    catalog: CatalogView,
    verdicts: Option<Seq<bool>>,
) -> Result<Seq<LocatorView>, ReferenceError> {
    match parsed(reference) {
        ParsedView::Direct(path) => Ok(seq![LocatorView { pack: None, path }]),
        ParsedView::Scoped { pack, glob } => match listing_of(catalog, pack) {
            None => Err(ReferenceError::UnknownReferenceKind),
            Some(listing) => match verdicts {
                None => Err(ReferenceError::InvalidGlob),
                Some(verdicts) => match listing {
                    None => Err(ReferenceError::CatalogUnavailable),
                    Some(paths) => Ok(selected(pack, paths, verdicts, paths.len())),
                },
            },
        },
    }
}

/// The verdicts have the shape of a pattern's answer on the pack that the
/// reference names: one for each listed path.
pub open spec fn verdicts_fit(
    reference: Seq<char>,
    catalog: CatalogView,
    verdicts: Option<Seq<bool>>,
) -> bool {
    match (parsed(reference), verdicts) {
        (ParsedView::Scoped { pack, glob }, Some(verdicts)) => match listing_of(catalog, pack) {
            Some(Some(paths)) => verdicts.len() == paths.len(),
            _ => true,
        },
        _ => true,
    }
}

/// What asking the pattern about the paths gives on a system that reads
/// `\` as `separates` says. A pattern nested beyond the compiler's limit is
/// not asked and gives `None`. Another gives `None` if the compiler does not
/// accept it, and else a verdict for each path: whether the pattern accepts
/// it. Whether a pattern longer than `MAX_SETTLED_GLOB` compiles is for the
/// machine to say; what it accepts once compiled is not.
pub open spec fn answers_under(
    pattern: Seq<char>,
    paths: Seq<Seq<char>>,
    verdicts: Option<Seq<bool>>,
    separates: bool,
) -> bool {
    match verdicts {
        None => !askable(pattern) || (sized(pattern) ==> !glob_compiles(pattern, separates)),
        Some(verdicts) => {
            &&& askable(pattern)
            &&& sized(pattern) ==> glob_compiles(pattern, separates)
            &&& verdicts.len() == paths.len()
            &&& forall|i: int|
                0 <= i < paths.len() ==> #[trigger] verdicts[i] == glob_matches(
                    pattern,
                    paths[i],
                    separates,
                )
        },
    }
}

/// What asking a pattern without `\` about the paths gives on every system
/// where it compiles: for each path without `\` whether the pattern accepts
/// it.
pub open spec fn answers_plain(
    pattern: Seq<char>,
    paths: Seq<Seq<char>>,
    verdicts: Option<Seq<bool>>,
) -> bool {
    verdicts matches Some(verdicts) ==> forall|i: int|
        0 <= i < paths.len() && plain(paths[i]) ==> #[trigger] verdicts[i] == accepts(
            pattern,
            paths[i],
        )
}

/// What asking a settled pattern about the paths gives on every system:
/// `None` if and only if the pattern cannot be compiled, and else for each
/// path without `\` whether the pattern accepts it.
pub open spec fn answers_settled(
    pattern: Seq<char>,
    paths: Seq<Seq<char>>,
    verdicts: Option<Seq<bool>>,
) -> bool {
    match verdicts {
        None => !compiles(pattern),
        Some(verdicts) => {
            &&& compiles(pattern)
            &&& verdicts.len() == paths.len()
            &&& forall|i: int|
                0 <= i < paths.len() && plain(paths[i]) ==> #[trigger] verdicts[i] == accepts(
                    pattern,
                    paths[i],
                )
        },
    }
}

/// What asking the pattern about the paths can give: what it gives on a
/// system of one of the two readings of `\`; for a pattern without `\` the
/// verdicts of every system where it compiles; and for a settled pattern
/// what it gives on every system.
pub open spec fn answers(
    pattern: Seq<char>,
    paths: Seq<Seq<char>>,
    verdicts: Option<Seq<bool>>,
) -> bool {
    &&& exists|separates: bool| #[trigger] answers_under(pattern, paths, verdicts, separates)
    &&& plain(pattern) ==> answers_plain(pattern, paths, verdicts)
    &&& settled(pattern) ==> answers_settled(pattern, paths, verdicts)
    &&& verdicts matches Some(verdicts) ==> verdicts.len() == paths.len()
}

/// The verdicts are what the pattern of the reference can give on the
/// paths of the pack that the reference names.
pub open spec fn answered(
    reference: Seq<char>,
    catalog: CatalogView,
    verdicts: Option<Seq<bool>>,
) -> bool {
    match parsed(reference) {
        ParsedView::Scoped { pack, glob } => match listing_of(catalog, pack) {
            Some(Some(paths)) => answers(glob, paths, verdicts),
            Some(None) => answers(glob, Seq::empty(), verdicts),
            None => true,
        },
        ParsedView::Direct(_) => true,
    }
}

/// The assets of a pack that the pattern accepts, in the listing's order:
/// those among the first `count` paths.
pub open spec fn accepted(
    pack: Seq<char>,
    listing: Seq<Seq<char>>,
    pattern: Seq<char>,
    count: nat,
) -> Seq<LocatorView>
    decreases count,
{
    if count == 0 {
        Seq::empty()
    } else {
        let before = accepted(pack, listing, pattern, (count - 1) as nat);
        if accepts(pattern, listing[count - 1]) {
            before.push(LocatorView { pack: Some(pack), path: listing[count - 1] })
        } else {
            before
        }
    }
}

/// What a reference resolves to, given whether its pattern compiled. A
/// reference without `:` is the one asset that it names. A reference
/// `pack:pattern` fails with `UnknownReferenceKind` where the catalog has no
/// such pack, with `InvalidGlob` where the pattern did not compile, and
/// with `CatalogUnavailable` where the pack's assets could not be listed;
/// else it is every asset of the pack that the pattern accepts, in catalog
/// order.
pub open spec fn resolved_if(reference: Seq<char>, catalog: CatalogView, compiled: bool) -> Result<
    Seq<LocatorView>,
    ReferenceError,
> {
    match parsed(reference) {
        ParsedView::Direct(path) => Ok(seq![LocatorView { pack: None, path }]),
        ParsedView::Scoped { pack, glob } => match listing_of(catalog, pack) {
            None => Err(ReferenceError::UnknownReferenceKind),
            Some(listing) => if !compiled {
                Err(ReferenceError::InvalidGlob)
            } else {
                match listing {
                    None => Err(ReferenceError::CatalogUnavailable),
                    Some(paths) => Ok(accepted(pack, paths, glob, paths.len())),
                }
            },
        },
    }
}

/// What a reference resolves to: `InvalidGlob` comes where the pattern
/// cannot be compiled.
pub open spec fn resolved(reference: Seq<char>, catalog: CatalogView) -> Result<
    Seq<LocatorView>,
    ReferenceError,
> {
    match parsed(reference) {
        ParsedView::Direct(_) => resolved_if(reference, catalog, true),
        ParsedView::Scoped { pack, glob } => resolved_if(reference, catalog, compiles(glob)),
    }
}

/// Neither the pattern of the reference nor a path of the pack that it
/// names holds a `\`: every system on which the pattern compiles resolves
/// the reference alike.
pub open spec fn plainly_read(reference: Seq<char>, catalog: CatalogView) -> bool {
    match parsed(reference) {
        ParsedView::Scoped { pack, glob } => plain(glob) && match listing_of(catalog, pack) {
            Some(Some(paths)) => forall|i: int| 0 <= i < paths.len() ==> plain(#[trigger] paths[i]),
            _ => true,
        },
        ParsedView::Direct(_) => true,
    }
}

/// The reference is plainly read and its pattern is settled: every system
/// resolves the reference alike.
pub open spec fn plainly_asked(reference: Seq<char>, catalog: CatalogView) -> bool {
    plainly_read(reference, catalog) && match parsed(reference) {
        ParsedView::Scoped { pack, glob } => sized(glob),
        ParsedView::Direct(_) => true,
    }
}

/// Verdicts that say what the pattern accepts pick what the pattern
/// accepts.
pub proof fn lemma_selected_accepted(
    pack: Seq<char>,
    listing: Seq<Seq<char>>,
    pattern: Seq<char>,
    verdicts: Seq<bool>,
    count: nat,
)
    requires
        count <= listing.len(),
        verdicts.len() == listing.len(),
        forall|i: int|
            0 <= i < listing.len() ==> #[trigger] verdicts[i] == accepts(pattern, listing[i]),
    ensures
        selected(pack, listing, verdicts, count) == accepted(pack, listing, pattern, count),
    decreases count,
{
    if count > 0 {
        lemma_selected_accepted(pack, listing, pattern, verdicts, (count - 1) as nat);
    }
}

/// A plainly read reference resolves to one of two things: what it stands
/// for, or `InvalidGlob` where its pattern did not compile.
pub proof fn lemma_plainly_read_resolved(
    reference: Seq<char>,
    catalog: CatalogView,
    verdicts: Option<Seq<bool>>,
)
    requires
        plainly_read(reference, catalog),
        answered(reference, catalog, verdicts),
    ensures
        resolved_with(reference, catalog, verdicts) == resolved_if(
            reference,
            catalog,
            verdicts is Some,
        ),
{
    match parsed(reference) {
        ParsedView::Scoped { pack, glob } => match (listing_of(catalog, pack), verdicts) {
            (Some(Some(paths)), Some(given)) => {
                lemma_selected_accepted(pack, paths, glob, given, paths.len());
            },
            _ => {},
        },
        ParsedView::Direct(_) => {},
    }
}

/// A reference that every system resolves alike resolves to one thing
/// only.
pub proof fn lemma_plainly_resolved(
    reference: Seq<char>,
    catalog: CatalogView,
    verdicts: Option<Seq<bool>>,
)
    requires
        plainly_asked(reference, catalog),
        answered(reference, catalog, verdicts),
    ensures
        resolved_with(reference, catalog, verdicts) == resolved(reference, catalog),
{
    lemma_plainly_read_resolved(reference, catalog, verdicts);
}

/// A result as plain text.
pub open spec fn outcome_view(outcome: Result<Vec<Locator>, ReferenceError>) -> Result<
    Seq<LocatorView>,
    ReferenceError,
> {
    match outcome {
        Ok(locators) => Ok(locator_views(locators@)),
        Err(error) => Err(error),
    }
}

/// Resolves a reference against the catalog, given the pattern's verdicts
/// on the paths of the pack that the reference names.
pub fn resolve_with(reference: &str, catalog: &Catalog, verdicts: Option<&Vec<bool>>) -> (outcome:
    Result<Vec<Locator>, ReferenceError>)
    requires
        verdicts_fit(
            reference@,
            catalog@,
            match verdicts {
                Some(verdicts) => Some(verdicts@),
                None => None,
            },
        ),
    ensures
        outcome_view(outcome) == resolved_with(
            reference@,
            catalog@,
            match verdicts {
                Some(verdicts) => Some(verdicts@),
                None => None,
            },
        ),
{
    match parse_reference(reference) {
        ParsedReference::Direct(path) => {
            let mut one: Vec<Locator> = Vec::new();
            one.push(Locator::asset(path.as_str()));
            assert(locator_views(one@) == seq![LocatorView { pack: None, path: path@ }]);
            Ok(one)
        },
        ParsedReference::Scoped { pack, glob } => match catalog.listing(pack.as_str()) {
            None => Err(ReferenceError::UnknownReferenceKind),
            Some(listing) => match verdicts {
                None => Err(ReferenceError::InvalidGlob),
                Some(verdicts) => match listing {
                    PackListing::Unavailable => Err(ReferenceError::CatalogUnavailable),
                    PackListing::Listed(paths) => Ok(
                        select_matching(pack.as_str(), paths, verdicts),
                    ),
                },
            },
        },
    }
}

/// The verdicts as plain values.
pub open spec fn verdicts_view(verdicts: Option<Vec<bool>>) -> Option<Seq<bool>> {
    match verdicts {
        Some(verdicts) => Some(verdicts@),
        None => None,
    }
}

/// Asks the pattern about each path. `None` where the pattern cannot be
/// compiled.
pub fn glob_verdicts(glob: &str, paths: &Vec<String>) -> (verdicts: Option<Vec<bool>>)
    ensures
        answers(glob@, texts(paths@), verdicts_view(verdicts)),
{
    if !is_askable(glob) {
        assert(answers_under(glob@, texts(paths@), None, false));
        return None;
    }
    let answer = pattern_verdicts(glob, paths);
    let verdicts = match answer.1 {
        Ok(verdicts) => Some(verdicts),
        Err(_) => None,
    };
    assert(answers_under(glob@, texts(paths@), verdicts_view(verdicts), answer.0));
    verdicts
}

/// The assets of the pack `pack` whose paths the pattern accepts, in the
/// listing's order, or `InvalidGlob` where the pattern cannot be compiled.
/// Where neither the pattern nor a path holds a `\`, the result is exactly
/// the accepted paths whenever it is one; whether a pattern longer than
/// `MAX_SETTLED_GLOB` compiles is for the machine to say.
pub fn match_paths_to_glob(pack: &str, glob: &str, listing: &Vec<String>) -> (outcome: Result<
    Vec<Locator>,
    ReferenceError,
>)
    ensures
        exists|verdicts: Option<Seq<bool>>|
            #[trigger] answers(glob@, texts(listing@), verdicts) && match (outcome, verdicts) {
                (Ok(chosen), Some(verdicts)) => locator_views(chosen@) == selected(
                    pack@,
                    texts(listing@),
                    verdicts,
                    listing@.len(),
                ),
                (Err(error), None) => error == ReferenceError::InvalidGlob,
                _ => false,
            },
        plain(glob@) && (forall|i: int| 0 <= i < listing@.len() ==> plain(
            #[trigger] texts(listing@)[i],
        )) ==> match outcome {
            Ok(chosen) => locator_views(chosen@) == accepted(
                pack@,
                texts(listing@),
                glob@,
                listing@.len(),
            ),
            Err(error) => error == ReferenceError::InvalidGlob,
        },
        settled(glob@) ==> (outcome is Ok <==> compiles(glob@)),
{
    let verdicts = glob_verdicts(glob, listing);
    match verdicts {
        Some(verdicts) => {
            proof {
                if plain(glob@) && (forall|i: int|
                    0 <= i < listing@.len() ==> plain(#[trigger] texts(listing@)[i])) {
                    lemma_selected_accepted(
                        pack@,
                        texts(listing@),
                        glob@,
                        verdicts@,
                        listing@.len(),
                    );
                }
            }
            Ok(select_matching(pack, listing, &verdicts))
        },
        None => Err(ReferenceError::InvalidGlob),
    }
}

/// The outcome is what the reference resolves to for some answer of its
/// pattern.
pub open spec fn resolves(
    reference: Seq<char>,
    catalog: CatalogView,
    outcome: Result<Seq<LocatorView>, ReferenceError>,
) -> bool {
    exists|verdicts: Option<Seq<bool>>|
        answered(reference, catalog, verdicts) && #[trigger] resolved_with(
            reference,
            catalog,
            verdicts,
        ) == outcome
}

/// Resolves a reference against the catalog. A reference without `:` is
/// the one asset that it names. A reference `pack:pattern` is every asset
/// of the pack that the pattern accepts, in catalog order; it fails with
/// `UnknownReferenceKind` where the catalog has no such pack, with
/// `InvalidGlob` where the pattern cannot be compiled, and with
/// `CatalogUnavailable` where the pack's assets could not be listed.
/// Where the pattern or a path holds a `\`, what the pattern accepts goes
/// by the system's reading of `\`. Whether a pattern longer than
/// `MAX_SETTLED_GLOB` compiles is for the machine to say: the compiler's
/// memory limit is counted in the machine's words.
pub fn expand_ref(reference: &str, catalog: &Catalog) -> (outcome: Result<
    Vec<Locator>,
    ReferenceError,
>)
    ensures
        resolves(reference@, catalog@, outcome_view(outcome)),
        plainly_asked(reference@, catalog@) ==> outcome_view(outcome) == resolved(
            reference@,
            catalog@,
        ),
        plainly_read(reference@, catalog@) ==> outcome_view(outcome) == resolved_if(
            reference@,
            catalog@,
            true,
        ) || outcome_view(outcome) == resolved_if(reference@, catalog@, false),
        parsed(reference@) matches ParsedView::Direct(path) ==> outcome_view(outcome) == Ok::<
            Seq<LocatorView>,
            ReferenceError,
        >(seq![LocatorView { pack: None, path }]),
        parsed(reference@) matches ParsedView::Scoped { pack, glob } ==> (listing_of(
            catalog@,
            pack,
        ) is None <==> outcome == Err::<Vec<Locator>, ReferenceError>(
            ReferenceError::UnknownReferenceKind,
        )),
{
    let verdicts = match parse_reference(reference) {
        ParsedReference::Direct(_) => None,
        ParsedReference::Scoped { pack, glob } => match catalog.listing(pack.as_str()) {
            Some(PackListing::Listed(paths)) => glob_verdicts(glob.as_str(), paths),
            Some(PackListing::Unavailable) => glob_verdicts(glob.as_str(), &Vec::new()),
            None => None,
        },
    };
    let outcome = match &verdicts {
        Some(verdicts) => resolve_with(reference, catalog, Some(verdicts)),
        None => resolve_with(reference, catalog, None),
    };
    proof {
        let given = verdicts_view(verdicts);
        assert(texts(Seq::<String>::empty()) == Seq::<Seq<char>>::empty());
        assert(answered(reference@, catalog@, given));
        assert(resolved_with(reference@, catalog@, given) == outcome_view(outcome));
        if plainly_read(reference@, catalog@) {
            lemma_plainly_read_resolved(reference@, catalog@, given);
        }
        if plainly_asked(reference@, catalog@) {
            lemma_plainly_resolved(reference@, catalog@, given);
        }
    }
    outcome
}

/// One list after the other.
pub open spec fn joined(before: Seq<LocatorView>, piece: Seq<LocatorView>) -> Seq<LocatorView> {
    before + piece
}

/// The expansion is what the first `count` references resolve to, one
/// after another.
pub open spec fn resolves_first(
    references: Seq<Seq<char>>,
    catalog: CatalogView,
    count: nat,
    expansion: Seq<LocatorView>,
) -> bool
    decreases count,
{
    if count == 0 {
        expansion == Seq::<LocatorView>::empty()
    } else {
        exists|before: Seq<LocatorView>, piece: Seq<LocatorView>|
            resolves_first(references, catalog, (count - 1) as nat, before) && resolves(
                references[count - 1],
                catalog,
                Ok(piece),
            ) && #[trigger] joined(before, piece) == expansion
    }
}

/// Some reference of the list fails with `error` after all before it
/// resolved.
pub open spec fn stops_with(
    references: Seq<Seq<char>>,
    catalog: CatalogView,
    error: ReferenceError,
) -> bool {
    exists|k: nat, before: Seq<LocatorView>|
        k < references.len() && #[trigger] resolves_first(references, catalog, k, before)
            && resolves(references[k as int], catalog, Err(error))
}

/// What the first `count` references resolve to, one after another: the
/// join of what each stands for, or the error of the first that fails.
pub open spec fn resolved_first(references: Seq<Seq<char>>, catalog: CatalogView, count: nat) -> Result<
    Seq<LocatorView>,
    ReferenceError,
>
    decreases count,
{
    if count == 0 {
        Ok(Seq::empty())
    } else {
        match resolved_first(references, catalog, (count - 1) as nat) {
            Err(error) => Err(error),
            Ok(before) => match resolved(references[count - 1], catalog) {
                Err(error) => Err(error),
                Ok(piece) => Ok(before + piece),
            },
        }
    }
}

/// Every system resolves each of the references alike.
pub open spec fn all_plainly_asked(references: Seq<Seq<char>>, catalog: CatalogView) -> bool {
    forall|i: int| 0 <= i < references.len() ==> plainly_asked(#[trigger] references[i], catalog)
}

/// Once a reference has failed, the references after it change nothing.
pub proof fn lemma_resolved_first_fails(
    references: Seq<Seq<char>>,
    catalog: CatalogView,
    failed: nat,
    count: nat,
)
    requires
        failed <= count,
        resolved_first(references, catalog, failed) is Err,
    ensures
        resolved_first(references, catalog, count) == resolved_first(references, catalog, failed),
    decreases count,
{
    if count > failed {
        lemma_resolved_first_fails(references, catalog, failed, (count - 1) as nat);
    }
}

proof fn lemma_resolves_next(
    references: Seq<Seq<char>>,
    catalog: CatalogView,
    count: nat,
    before: Seq<LocatorView>,
    piece: Seq<LocatorView>,
)
    requires
        count > 0,
        resolves_first(references, catalog, (count - 1) as nat, before),
        resolves(references[count - 1], catalog, Ok(piece)),
    ensures
        resolves_first(references, catalog, count, before + piece),
{
    assert(joined(before, piece) == before + piece);
}

/// Resolves the references one after another and joins what they stand
/// for, in their order. The first reference that fails ends it with its
/// error.
pub fn expand_refs(references: &Vec<String>, catalog: &Catalog) -> (outcome: Result<
    Vec<Locator>,
    ReferenceError,
>)
    ensures
        match outcome {
            Ok(all) => resolves_first(
                texts(references@),
                catalog@,
                references@.len(),
                locator_views(all@),
            ),
            Err(error) => stops_with(texts(references@), catalog@, error),
        },
        all_plainly_asked(texts(references@), catalog@) ==> outcome_view(outcome)
            == resolved_first(texts(references@), catalog@, references@.len()),
{
    let mut all: Vec<Locator> = Vec::new();
    let mut i: usize = 0;
    assert(locator_views(all@) == Seq::<LocatorView>::empty());
    while i < references.len()
        invariant
            i <= references@.len(),
            resolves_first(texts(references@), catalog@, i as nat, locator_views(all@)),
            all_plainly_asked(texts(references@), catalog@) ==> resolved_first(
                texts(references@),
                catalog@,
                i as nat,
            ) == Ok::<Seq<LocatorView>, ReferenceError>(locator_views(all@)),
        decreases references@.len() - i,
    {
        let ghost before = locator_views(all@);
        match expand_ref(references[i].as_str(), catalog) {
            Ok(mut piece) => {
                let ghost added = locator_views(piece@);
                all.append(&mut piece);
                assert(locator_views(all@) == before + added);
                assert(resolves_first(
                    texts(references@),
                    catalog@,
                    (i + 1) as nat,
                    locator_views(all@),
                )) by {
                    lemma_resolves_next(
                        texts(references@),
                        catalog@,
                        (i + 1) as nat,
                        before,
                        added,
                    );
                }
            },
            Err(error) => {
                proof {
                    if all_plainly_asked(texts(references@), catalog@) {
                        lemma_resolved_first_fails(
                            texts(references@),
                            catalog@,
                            (i + 1) as nat,
                            references@.len() as nat,
                        );
                    }
                }
                return Err(error);
            },
        }
        i += 1;
    }
    Ok(all)
}

} // verus!
