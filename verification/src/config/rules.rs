//! Window rules: which windows they match and what they do to them.

use crate::config::keys::{KeyCombo, Keysym, Modifiers, ModifiersState};
use crate::glob::glob_matches;
use crate::scalar::Scalar;
use vstd::prelude::*;

verus! {

/// The compiled regular expression of the `regex` crate.
#[verifier::external_type_specification]
#[verifier::external_body]
pub struct ExRegex(regex::Regex);

/// What `regex::Regex::is_match` answers for an expression and a text.
pub uninterp spec fn regex_is_match(re: regex::Regex, value: Seq<char>) -> bool;

/// Calls `regex::Regex::is_match`. The answer depends on the compiled expression
/// and on the text alone; which texts an expression accepts is the `regex`
/// crate's business and is not stated here.
#[verifier::external_body]
fn is_match(re: &regex::Regex, value: &str) -> (found: bool)
    ensures
        found == regex_is_match(*re, value@),
{
    re.is_match(value)
}

/// `Clone` for `regex::Regex`: the copy gives the same answers.
pub assume_specification[ <regex::Regex as Clone>::clone ](re: &regex::Regex) -> (copy: regex::Regex)
    ensures
        forall|value: Seq<char>| #[trigger]
            regex_is_match(copy, value) == regex_is_match(*re, value),
;

/// Decoration mode for a window. Drives both the xdg-decoration hint sent to the
/// client and what the compositor renders on top.
#[derive(Clone, Copy, Debug, Default, PartialEq, Eq, Structural)]
pub enum DecorationMode {
    /// CSD: client draws its own decorations. Compositor still draws shadow + corner clip.
    #[default]
    Client,
    /// SSD: compositor draws a title bar with close button, plus shadow + corner clip.
    Server,
    /// SSD: no title bar, but compositor still draws shadow + corner clip.
    Borderless,
    /// SSD: nothing at all. Bare client surface, no shadow, no corner clip.
    Bare,
}

/// A match pattern for a window rule field.
/// - `Glob`: simple wildcard matching (`*` matches any sequence of chars).
/// - `Regex`: full regular expression (wrap in `/.../` in config).
#[derive(Debug)]
pub enum Pattern {
    Glob(String),
    Regex(regex::Regex),
}

impl Clone for Pattern {
    fn clone(&self) -> (copy: Pattern)
        ensures
            forall|value: Seq<char>| #[trigger] copy.accepts(value) == self.accepts(value),
    {
        match self {
            Pattern::Glob(pat) => Pattern::Glob(pat.clone()),
            Pattern::Regex(re) => Pattern::Regex(re.clone()),
        }
    }
}

impl Pattern {
    /// Whether a text matches this pattern.
    pub open spec fn accepts(self, value: Seq<char>) -> bool {
        match self {
            Pattern::Glob(pat) => crate::glob::glob_accepts(pat@, value),
            Pattern::Regex(re) => regex_is_match(re, value),
        }
    }

    /// Returns true if `value` matches this pattern.
    pub fn matches(&self, value: &str) -> (b: bool)
        ensures
            b == self.accepts(value@),
    {
        match self {
            Pattern::Glob(pat) => glob_matches(pat.as_str(), value),
            Pattern::Regex(re) => is_match(re, value),
        }
    }
}

/// Controls which compositor keybindings are forwarded to the focused window
/// instead of being handled by the compositor.
///
/// - `NoKeys`: default; compositor handles everything.
/// - `All`: all keys forwarded (game/fullscreen-friendly).
/// - `Only`: only the listed combos are forwarded; all others stay active.
#[derive(Clone, Debug, Default)]
pub enum PassKeys {
    #[default]
    NoKeys,
    All,
    Only(Vec<KeyCombo>),
}

/// What a [`PassKeys`] says.
pub enum PassKeysView {
    NoKeys,
    All,
    Only(Seq<KeyCombo>),
}

impl View for PassKeys {
    type V = PassKeysView;

    open spec fn view(&self) -> PassKeysView {
        match self {
            PassKeys::NoKeys => PassKeysView::NoKeys,
            PassKeys::All => PassKeysView::All,
            PassKeys::Only(combos) => PassKeysView::Only(combos@),
        }
    }
}

impl PassKeysView {
    /// Whether a (normalized) combination is forwarded.
    pub open spec fn allows(self, combo: KeyCombo) -> bool {
        match self {
            PassKeysView::NoKeys => false,
            PassKeysView::All => true,
            PassKeysView::Only(combos) => combos.contains(combo),
        }
    }

    /// `All` is sticky-on; `Only` lists are united; `NoKeys` adds nothing.
    pub open spec fn merged(self, other: PassKeysView) -> PassKeysView {
        match (self, other) {
            (_, PassKeysView::NoKeys) => self,
            (PassKeysView::All, _) => self,
            (_, PassKeysView::All) => PassKeysView::All,
            (PassKeysView::NoKeys, PassKeysView::Only(_)) => other,
            (PassKeysView::Only(existing), PassKeysView::Only(extra)) => PassKeysView::Only(
                united(existing, extra),
            ),
        }
    }
}

/// `existing`, followed by the items of `extra` that were not there yet, in
/// their order, each once.
pub open spec fn united(existing: Seq<KeyCombo>, extra: Seq<KeyCombo>) -> Seq<KeyCombo>
    decreases extra.len(),
{
    if extra.len() == 0 {
        existing
    } else {
        let before = united(existing, extra.drop_last());
        if before.contains(extra.last()) {
            before
        } else {
            before.push(extra.last())
        }
    }
}

/// Whether `combo` is among `combos`.
fn has_combo(combos: &Vec<KeyCombo>, combo: &KeyCombo) -> (found: bool)
    ensures
        found == combos@.contains(*combo),
{
    let mut i: usize = 0;
    while i < combos.len()
        invariant
            i <= combos.len(),
            forall|j: int| 0 <= j < i ==> combos@[j] != *combo,
        decreases combos.len() - i,
    {
        if combos[i] == *combo {
            return true;
        }
        i += 1;
    }
    false
}

/// A list with the same combinations.
fn copy_combos(combos: &Vec<KeyCombo>) -> (copy: Vec<KeyCombo>)
    ensures
        copy@ == combos@,
{
    let copy: Vec<KeyCombo> = combos.clone();
    assert(copy@ =~= combos@);
    copy
}

impl PassKeys {
    /// Returns `true` if the given raw key event should be forwarded to the app.
    /// The combination is normalized first.
    pub fn allows_raw(&self, modifiers: &ModifiersState, sym: Keysym) -> (b: bool)
        ensures
            b == self@.allows(
                (KeyCombo { modifiers: Modifiers::of_state(*modifiers), sym }).normalized(),
            ),
    {
        match self {
            PassKeys::NoKeys => false,
            PassKeys::All => true,
            PassKeys::Only(combos) => {
                let mut current: KeyCombo = KeyCombo {
                    modifiers: Modifiers::from_state(modifiers),
                    sym,
                };
                current.normalize();
                has_combo(combos, &current)
            },
        }
    }

    /// Merge `other` into `self`.
    /// `All` is sticky-on; `Only` lists are unioned; `NoKeys` is a no-op.
    pub fn merge_from(&mut self, other: &PassKeys)
        ensures
            final(self)@ == old(self)@.merged(other@),
    {
        match other {
            PassKeys::NoKeys => {},
            PassKeys::All => {
                *self = PassKeys::All;
            },
            PassKeys::Only(extra) => {
                let merged: PassKeys = match &*self {
                    PassKeys::All => PassKeys::All,
                    PassKeys::NoKeys => PassKeys::Only(copy_combos(extra)),
                    PassKeys::Only(existing) => {
                        let mut merged: Vec<KeyCombo> = copy_combos(existing);
                        let mut i: usize = 0;
                        assert(extra@.take(0) =~= Seq::<KeyCombo>::empty());
                        while i < extra.len()
                            invariant
                                i <= extra.len(),
                                merged@ == united(existing@, extra@.take(i as int)),
                            decreases extra.len() - i,
                        {
                            proof {
                                let seen = extra@.take(i + 1);
                                assert(seen.drop_last() =~= extra@.take(i as int));
                                assert(seen.last() == extra@[i as int]);
                            }
                            if !has_combo(&merged, &extra[i]) {
                                merged.push(extra[i]);
                            }
                            i += 1;
                        }
                        assert(extra@.take(extra@.len() as int) =~= extra@);
                        PassKeys::Only(merged)
                    },
                };
                *self = merged;
            },
        }
    }

    /// A value that says the same.
    pub fn duplicate(&self) -> (copy: PassKeys)
        ensures
            copy@ == self@,
    {
        match self {
            PassKeys::NoKeys => PassKeys::NoKeys,
            PassKeys::All => PassKeys::All,
            PassKeys::Only(combos) => PassKeys::Only(copy_combos(combos)),
        }
    }
}

/// Parsed window rule from config.
#[derive(Clone, Debug)]
pub struct WindowRule {
    // Match criteria (all that are Some must match).
    /// Wayland `app_id`. X11 apps proxied via xwayland-satellite arrive with
    /// `app_id` set from the `WM_CLASS` instance (typically lowercase).
    pub app_id: Option<Pattern>,
    /// Window title.
    pub title: Option<Pattern>,
    // One-time placement effects.
    pub position: Option<(i32, i32)>,
    pub size: Option<(i32, i32)>,
    /// Widget windows are pinned (immovable), excluded from navigation/alt-tab,
    /// and always stacked below normal windows. One that belongs to a normal window
    /// lies above it: over the windows without a parent, and no higher than that
    /// takes among those with one.
    pub widget: bool,
    /// `None` means "inherit `[decorations] default_mode`". Explicit
    /// `decoration = "client"` resolves to `Some(Client)` and overrides default.
    pub decoration: Option<DecorationMode>,
    pub blur: bool,
    pub opacity: Option<Scalar>,
    pub pass_keys: PassKeys,
}

/// What a rule, or several rules together, do to a window.
pub struct RuleEffects {
    pub widget: bool,
    pub decoration: Option<DecorationMode>,
    pub blur: bool,
    pub opacity: Option<Scalar>,
    pub pass_keys: PassKeysView,
    pub position: Option<(i32, i32)>,
    pub size: Option<(i32, i32)>,
}

/// The later of two settings, where a missing one overrides nothing.
pub open spec fn last_set<T>(earlier: Option<T>, later: Option<T>) -> Option<T> {
    match later {
        Some(_) => later,
        None => earlier,
    }
}

impl RuleEffects {
    /// `self` with the effects of a later rule on top: flags are sticky-on, the
    /// forwarded keys are united, and of the other settings the last one wins.
    pub open spec fn overlaid(self, later: RuleEffects) -> RuleEffects {
        RuleEffects {
            widget: self.widget || later.widget,
            decoration: last_set(self.decoration, later.decoration),
            blur: self.blur || later.blur,
            opacity: last_set(self.opacity, later.opacity),
            pass_keys: self.pass_keys.merged(later.pass_keys),
            position: last_set(self.position, later.position),
            size: last_set(self.size, later.size),
        }
    }

    /// `self` with the effects of all `rules` on top, in their order.
    pub open spec fn overlaid_all(self, rules: Seq<RuleEffects>) -> RuleEffects
        decreases rules.len(),
    {
        if rules.len() == 0 {
            self
        } else {
            self.overlaid_all(rules.drop_last()).overlaid(rules.last())
        }
    }
}

/// What a rule's criteria say, given what each of them answered: a criterion
/// that is not set holds.
pub fn criteria_hold(app_id: Option<bool>, title: Option<bool>) -> (b: bool)
    ensures
        b == (app_id != Some(false) && title != Some(false)),
{
    let app_ok: bool = match app_id {
        Some(answer) => answer,
        None => true,
    };
    let title_ok: bool = match title {
        Some(answer) => answer,
        None => true,
    };
    app_ok && title_ok
}

impl WindowRule {
    /// What the rule does to the windows that it matches.
    pub open spec fn effects(self) -> RuleEffects {
        RuleEffects {
            widget: self.widget,
            decoration: self.decoration,
            blur: self.blur,
            opacity: self.opacity,
            pass_keys: self.pass_keys@,
            position: self.position,
            size: self.size,
        }
    }

    /// Whether a window with this `app_id` and title is meant by the rule.
    pub open spec fn means(self, app_id: Seq<char>, title: Seq<char>) -> bool {
        &&& self.app_id matches Some(p) ==> p.accepts(app_id)
        &&& self.title matches Some(p) ==> p.accepts(title)
    }

    /// Returns true if this rule matches all of the supplied window identifiers.
    /// Fields that are `None` are treated as wildcards (match anything).
    pub fn matches(&self, app_id: &str, title: &str) -> (b: bool)
        ensures
            b == self.means(app_id@, title@),
    {
        let app_ok: Option<bool> = match &self.app_id {
            Some(p) => Some(p.matches(app_id)),
            None => None,
        };
        let title_ok: Option<bool> = match &self.title {
            Some(p) => Some(p.matches(title)),
            None => None,
        };
        criteria_hold(app_ok, title_ok)
    }

    /// True if at least one match criterion is set (rules with no criteria are rejected).
    pub fn has_criteria(&self) -> (b: bool)
        ensures
            b == (self.app_id is Some || self.title is Some),
    {
        self.app_id.is_some() || self.title.is_some()
    }
}

/// Runtime rule state of a window after matching. Built by merging all matching
/// [`WindowRule`]s in config order (later rules override earlier ones for scalar
/// fields; boolean flags are sticky-on).
#[derive(Clone, Debug)]
pub struct AppliedWindowRule {
    pub widget: bool,
    pub decoration: Option<DecorationMode>,
    pub blur: bool,
    pub opacity: Option<Scalar>,
    pub pass_keys: PassKeys,
    /// Explicit window position requested by the matching rule(s).
    pub position: Option<(i32, i32)>,
    /// Explicit window size requested by the matching rule(s).
    pub size: Option<(i32, i32)>,
}

impl View for AppliedWindowRule {
    type V = RuleEffects;

    open spec fn view(&self) -> RuleEffects {
        RuleEffects {
            widget: self.widget,
            decoration: self.decoration,
            blur: self.blur,
            opacity: self.opacity,
            pass_keys: self.pass_keys@,
            position: self.position,
            size: self.size,
        }
    }
}

impl AppliedWindowRule {
    /// Overlay `rule`'s effects on top of `self`.
    /// Boolean flags (widget, blur) are sticky-on.
    /// `pass_keys`: `All` is sticky-on; `Only` lists are unioned (see `PassKeys::merge_from`).
    /// Scalar fields (decoration, opacity, position, size) use last-wins.
    pub fn merge_from(&mut self, rule: &WindowRule)
        ensures
            final(self)@ == old(self)@.overlaid(rule.effects()),
    {
        if rule.widget {
            self.widget = true;
        }
        if rule.blur {
            self.blur = true;
        }
        self.pass_keys.merge_from(&rule.pass_keys);
        if rule.decoration.is_some() {
            self.decoration = rule.decoration;
        }
        if let Some(op) = rule.opacity {
            self.opacity = Some(op);
        }
        if let Some(pos) = rule.position {
            self.position = Some(pos);
        }
        if let Some(sz) = rule.size {
            self.size = Some(sz);
        }
    }

    /// A value that says the same.
    pub fn duplicate(&self) -> (copy: AppliedWindowRule)
        ensures
            copy@ == self@,
    {
        AppliedWindowRule {
            widget: self.widget,
            decoration: self.decoration,
            blur: self.blur,
            opacity: self.opacity,
            pass_keys: self.pass_keys.duplicate(),
            position: self.position,
            size: self.size,
        }
    }
}

impl vstd::std_specs::convert::FromSpecImpl<&WindowRule> for AppliedWindowRule {
    open spec fn obeys_from_spec() -> bool {
        false
    }

    open spec fn from_spec(rule: &WindowRule) -> AppliedWindowRule {
        arbitrary()
    }
}

impl From<&WindowRule> for AppliedWindowRule {
    fn from(rule: &WindowRule) -> (applied: AppliedWindowRule)
        ensures
            applied@ == rule.effects(),
    {
        AppliedWindowRule {
            widget: rule.widget,
            decoration: rule.decoration,
            blur: rule.blur,
            opacity: rule.opacity,
            pass_keys: rule.pass_keys.duplicate(),
            position: rule.position,
            size: rule.size,
        }
    }
}

/// Resolve the effective decoration mode for a window: rule-specified mode wins;
/// otherwise fall back to the global `default_mode` from `[decorations]`.
pub fn effective_decoration_mode<'a>(
    rule_decoration: Option<&'a DecorationMode>,
    default_mode: &'a DecorationMode,
) -> (mode: &'a DecorationMode)
    ensures
        *mode == (match rule_decoration {
            Some(rule_mode) => *rule_mode,
            None => *default_mode,
        }),
{
    match rule_decoration {
        Some(mode) => mode,
        None => default_mode,
    }
}

/// What is in the union of two lists is what is in one of them, and the first
/// list keeps its place at the front.
proof fn lemma_united_contains(existing: Seq<KeyCombo>, extra: Seq<KeyCombo>, combo: KeyCombo)
    ensures
        united(existing, extra).contains(combo) <==> existing.contains(combo) || extra.contains(
            combo,
        ),
        existing.len() <= united(existing, extra).len(),
        united(existing, extra).take(existing.len() as int) == existing,
    decreases extra.len(),
{
    if extra.len() == 0 {
        assert(existing.take(existing.len() as int) =~= existing);
    } else {
        let first = extra.drop_last();
        let before = united(existing, first);
        lemma_united_contains(existing, first, combo);
        assert(extra =~= first.push(extra.last()));
        assert(extra.contains(combo) <==> first.contains(combo) || combo == extra.last()) by {
            if extra.contains(combo) {
                let i = choose|i: int| 0 <= i < extra.len() && extra[i] == combo;
                if i < first.len() {
                    assert(first[i] == combo);
                }
            }
            if first.contains(combo) {
                let i = choose|i: int| 0 <= i < first.len() && first[i] == combo;
                assert(extra[i] == combo);
            }
            if combo == extra.last() {
                assert(extra[extra.len() - 1] == combo);
            }
        }
        if !before.contains(extra.last()) {
            let after = before.push(extra.last());
            assert(after.take(existing.len() as int) =~= before.take(existing.len() as int));
            assert(after.contains(combo) <==> before.contains(combo) || combo == extra.last())
                by {
                if before.contains(combo) {
                    let i = choose|i: int| 0 <= i < before.len() && before[i] == combo;
                    assert(after[i] == combo);
                }
                if combo == extra.last() {
                    assert(after[before.len() as int] == combo);
                }
            }
        }
    }
}

/// Merging forwards exactly what either side forwards: no combination is lost
/// and none is added.
pub proof fn lemma_merged_allows(a: PassKeysView, b: PassKeysView, combo: KeyCombo)
    ensures
        a.merged(b).allows(combo) <==> a.allows(combo) || b.allows(combo),
{
    match (a, b) {
        (PassKeysView::Only(existing), PassKeysView::Only(extra)) => {
            lemma_united_contains(existing, extra, combo);
        },
        _ => {},
    }
}

/// `All` is sticky-on: once either side forwards all keys, so does the result.
pub proof fn lemma_all_is_sticky(a: PassKeysView, b: PassKeysView)
    ensures
        a is All || b is All ==> a.merged(b) is All,
        a.merged(b) is All ==> a is All || b is All,
{
}

/// A list united with its own beginning stays as it is.
proof fn lemma_united_with_itself(combos: Seq<KeyCombo>, n: int)
    requires
        0 <= n <= combos.len(),
    ensures
        united(combos, combos.take(n)) == combos,
    decreases n,
{
    if n > 0 {
        let seen = combos.take(n);
        lemma_united_with_itself(combos, n - 1);
        assert(seen.drop_last() =~= combos.take(n - 1));
        assert(seen.last() == combos[n - 1]);
        assert(combos.contains(combos[n - 1]));
    }
}

/// A rule's effects overlaid on themselves change nothing: the same rule, matched
/// twice, counts once.
pub proof fn lemma_overlay_twice(effects: RuleEffects)
    ensures
        effects.overlaid(effects) == effects,
{
    if let PassKeysView::Only(combos) = effects.pass_keys {
        lemma_united_with_itself(combos, combos.len() as int);
        assert(combos.take(combos.len() as int) =~= combos);
    }
}

/// After any number of rules, a flag is set exactly when some rule set it, and a
/// combination is forwarded exactly when some rule forwards it.
pub proof fn lemma_flags_are_sticky(base: RuleEffects, rules: Seq<RuleEffects>, combo: KeyCombo)
    ensures
        base.overlaid_all(rules).widget <==> base.widget || exists|i: int|
            0 <= i < rules.len() && (#[trigger] rules[i]).widget,
        base.overlaid_all(rules).blur <==> base.blur || exists|i: int|
            0 <= i < rules.len() && (#[trigger] rules[i]).blur,
        base.overlaid_all(rules).pass_keys.allows(combo) <==> base.pass_keys.allows(combo)
            || exists|i: int|
            0 <= i < rules.len() && (#[trigger] rules[i]).pass_keys.allows(combo),
    decreases rules.len(),
{
    if rules.len() > 0 {
        let first = rules.drop_last();
        let before = base.overlaid_all(first);
        lemma_flags_are_sticky(base, first, combo);
        lemma_merged_allows(before.pass_keys, rules.last().pass_keys, combo);
        assert(rules.last() == rules[rules.len() - 1]);
        assert forall|i: int| 0 <= i < first.len() implies #[trigger] first[i] == rules[i] by {}
        if before.widget && !base.widget {
            let i = choose|i: int| 0 <= i < first.len() && (#[trigger] first[i]).widget;
            assert(rules[i].widget);
        }
        if before.blur && !base.blur {
            let i = choose|i: int| 0 <= i < first.len() && (#[trigger] first[i]).blur;
            assert(rules[i].blur);
        }
        if before.pass_keys.allows(combo) && !base.pass_keys.allows(combo) {
            let i = choose|i: int|
                0 <= i < first.len() && (#[trigger] first[i]).pass_keys.allows(combo);
            assert(rules[i].pass_keys.allows(combo));
        }
        if exists|i: int| 0 <= i < rules.len() && (#[trigger] rules[i]).widget {
            let i = choose|i: int| 0 <= i < rules.len() && (#[trigger] rules[i]).widget;
            if i < first.len() {
                assert(first[i].widget);
            }
        }
        if exists|i: int| 0 <= i < rules.len() && (#[trigger] rules[i]).blur {
            let i = choose|i: int| 0 <= i < rules.len() && (#[trigger] rules[i]).blur;
            if i < first.len() {
                assert(first[i].blur);
            }
        }
        if exists|i: int| 0 <= i < rules.len() && (#[trigger] rules[i]).pass_keys.allows(combo) {
            let i = choose|i: int|
                0 <= i < rules.len() && (#[trigger] rules[i]).pass_keys.allows(combo);
            if i < first.len() {
                assert(first[i].pass_keys.allows(combo));
            }
        }
    }
}

/// After any number of rules, the decoration, opacity, position and size are
/// those of the last rule that sets them: `at` is that rule when no later one
/// sets the field, and the field stays as it was when none does.
pub proof fn lemma_last_rule_wins(base: RuleEffects, rules: Seq<RuleEffects>, at: int)
    requires
        -1 <= at < rules.len(),
    ensures
        (forall|i: int| at < i < rules.len() ==> (#[trigger] rules[i]).decoration is None) && (at
            >= 0 ==> rules[at].decoration is Some) ==> base.overlaid_all(rules).decoration == (if at
            >= 0 {
            rules[at].decoration
        } else {
            base.decoration
        }),
        (forall|i: int| at < i < rules.len() ==> (#[trigger] rules[i]).opacity is None) && (at >= 0
            ==> rules[at].opacity is Some) ==> base.overlaid_all(rules).opacity == (if at >= 0 {
            rules[at].opacity
        } else {
            base.opacity
        }),
        (forall|i: int| at < i < rules.len() ==> (#[trigger] rules[i]).position is None) && (at >= 0
            ==> rules[at].position is Some) ==> base.overlaid_all(rules).position == (if at >= 0 {
            rules[at].position
        } else {
            base.position
        }),
        (forall|i: int| at < i < rules.len() ==> (#[trigger] rules[i]).size is None) && (at >= 0
            ==> rules[at].size is Some) ==> base.overlaid_all(rules).size == (if at >= 0 {
            rules[at].size
        } else {
            base.size
        }),
    decreases rules.len(),
{
    if rules.len() > 0 {
        let first = rules.drop_last();
        assert(rules.last() == rules[rules.len() - 1]);
        if at < first.len() {
            lemma_last_rule_wins(base, first, at);
            assert forall|i: int| 0 <= i < first.len() implies #[trigger] first[i] == rules[i] by {}
        }
    }
}

/// A rule means a window exactly when every criterion that it sets accepts it: a
/// rule without criteria means every window, and one criterion that fails is enough
/// to leave a window out.
pub proof fn lemma_every_criterion_must_hold(
    rule: WindowRule,
    app_id: Seq<char>,
    title: Seq<char>,
)
    ensures
        rule.app_id is None && rule.title is None ==> rule.means(app_id, title),
        rule.app_id is Some && !rule.app_id->0.accepts(app_id) ==> !rule.means(app_id, title),
        rule.title is Some && !rule.title->0.accepts(title) ==> !rule.means(app_id, title),
        rule.app_id is Some && rule.title is None ==> (rule.means(app_id, title)
            <==> rule.app_id->0.accepts(app_id)),
        rule.app_id is None && rule.title is Some ==> (rule.means(app_id, title)
            <==> rule.title->0.accepts(title)),
        rule.app_id is Some && rule.title is Some && rule.app_id->0.accepts(app_id)
            && rule.title->0.accepts(title) ==> rule.means(app_id, title),
{
}

/// No key is forwarded by default, all are under `All`, and of a list exactly those
/// that it holds.
pub proof fn lemma_forwarded_keys(keys: PassKeys, combo: KeyCombo)
    ensures
        keys is NoKeys ==> !keys@.allows(combo),
        keys is All ==> keys@.allows(combo),
        keys matches PassKeys::Only(combos) ==> (keys@.allows(combo) <==> exists|i: int|
            0 <= i < combos.len() && #[trigger] combos@[i] == combo),
{
}

/// A rule's effects are what the rule says, field by field, and one more rule on top
/// overrides what it sets and leaves the rest.
pub proof fn lemma_one_rule_more(rule: WindowRule, before: RuleEffects)
    ensures
        ({
            let after = before.overlaid(rule.effects());
            &&& after.widget == (before.widget || rule.widget)
            &&& after.blur == (before.blur || rule.blur)
            &&& rule.decoration is Some ==> after.decoration == rule.decoration
            &&& rule.decoration is None ==> after.decoration == before.decoration
            &&& rule.opacity is Some ==> after.opacity == rule.opacity
            &&& rule.opacity is None ==> after.opacity == before.opacity
            &&& rule.position is Some ==> after.position == rule.position
            &&& rule.position is None ==> after.position == before.position
            &&& rule.size is Some ==> after.size == rule.size
            &&& rule.size is None ==> after.size == before.size
            &&& rule.pass_keys is NoKeys ==> after.pass_keys == before.pass_keys
            &&& rule.pass_keys is All ==> after.pass_keys is All
        }),
{
}

/// A wildcard pattern without a star accepts the one text that it spells, case and
/// all; one with a single star at its end accepts every text that starts like it, and
/// the star alone accepts every text.
pub proof fn lemma_wildcard_patterns(pat: String, start: Seq<char>, value: Seq<char>)
    ensures
        !pat@.contains('*') ==> (Pattern::Glob(pat).accepts(value) <==> value == pat@),
        pat@ == start.push('*') && !start.contains('*') ==> (Pattern::Glob(pat).accepts(value)
            <==> start.is_prefix_of(value)),
        pat@ == seq!['*'] ==> Pattern::Glob(pat).accepts(value),
{
    if !pat@.contains('*') {
        crate::glob::lemma_plain_is_exact(pat@, value);
    }
    if pat@ == start.push('*') && !start.contains('*') {
        crate::glob::lemma_trailing_star_is_prefix(start, value);
    }
    if pat@ == seq!['*'] {
        let none = Seq::<char>::empty();
        assert(none.push('*') =~= seq!['*']);
        crate::glob::lemma_trailing_star_is_prefix(none, value);
        assert(none =~= value.subrange(0, 0));
    }
}

} // verus!
