//! Localized help text: a help file's overrides, checked against the registered
//! commands, and each command's help resolved for one locale.
//!
//! Every field of a command's help falls back on its own: the locale's override, then
//! the default locale's, then the text the command was registered with.

use vstd::prelude::*;
use vstd::string::*;
use crate::models::command::{CommandEntry, EntryView, ParamView, registered, registry_view};
use crate::utils::text::{lemma_text_lt_total, lemma_text_lt_trans, same_text, text_less, text_lt};

verus! {

/// Discord's hard limit on a slash command's description, in characters.
pub const SHORT_DESCRIPTION_LIMIT: usize = 100;

/// The locales Discord accepts as keys in a localization map. Discord rejects a whole
/// command registration over a key outside them.
pub open spec fn discord_locale(l: Seq<char>) -> bool {
    ||| l == "id"@ || l == "da"@ || l == "de"@ || l == "en-GB"@ || l == "en-US"@ || l == "es-ES"@
    ||| l == "es-419"@ || l == "fr"@ || l == "hr"@ || l == "it"@ || l == "lt"@ || l == "hu"@
    ||| l == "nl"@ || l == "no"@ || l == "pl"@ || l == "pt-BR"@ || l == "ro"@ || l == "fi"@
    ||| l == "sv-SE"@ || l == "vi"@ || l == "tr"@ || l == "cs"@ || l == "el"@ || l == "bg"@
    ||| l == "ru"@ || l == "uk"@ || l == "hi"@ || l == "th"@ || l == "zh-CN"@ || l == "ja"@
    ||| l == "zh-TW"@ || l == "ko"@
}

/// Whether Discord accepts `l` as a locale.
pub fn is_discord_locale(l: &str) -> (r: bool)
    ensures
        r == discord_locale(l@),
{
    same_text(l, "id") || same_text(l, "da") || same_text(l, "de") || same_text(l, "en-GB")
        || same_text(l, "en-US") || same_text(l, "es-ES") || same_text(l, "es-419") || same_text(l, "fr")
        || same_text(l, "hr") || same_text(l, "it") || same_text(l, "lt") || same_text(l, "hu")
        || same_text(l, "nl") || same_text(l, "no") || same_text(l, "pl") || same_text(l, "pt-BR")
        || same_text(l, "ro") || same_text(l, "fi") || same_text(l, "sv-SE") || same_text(l, "vi")
        || same_text(l, "tr") || same_text(l, "cs") || same_text(l, "el") || same_text(l, "bg")
        || same_text(l, "ru") || same_text(l, "uk") || same_text(l, "hi") || same_text(l, "th")
        || same_text(l, "zh-CN") || same_text(l, "ja") || same_text(l, "zh-TW") || same_text(l, "ko")
}

/// The value that `pairs` gives `key`: that of the last pair naming it, which is what
/// collecting the pairs into a map keeps.
pub open spec fn lookup<V>(pairs: Seq<(Seq<char>, V)>, key: Seq<char>) -> Option<V>
    decreases pairs.len(),
{
    if pairs.len() == 0 {
        None
    } else if pairs.last().0 == key {
        Some(pairs.last().1)
    } else {
        lookup(pairs.drop_last(), key)
    }
}

/// The keys of `pairs`, as values.
pub open spec fn keys_of<V>(pairs: Seq<(String, V)>) -> Seq<Seq<char>> {
    pairs.map_values(|p: (String, V)| p.0@)
}

/// The index of the last pair of `keys` naming `key`, or -1.
pub open spec fn last_index(keys: Seq<Seq<char>>, key: Seq<char>) -> int
    decreases keys.len(),
{
    if keys.len() == 0 {
        -1
    } else if keys.last() == key {
        keys.len() - 1
    } else {
        last_index(keys.drop_last(), key)
    }
}

proof fn lemma_last_index_bounds(keys: Seq<Seq<char>>, key: Seq<char>)
    ensures
        -1 <= last_index(keys, key) < keys.len(),
        last_index(keys, key) >= 0 ==> keys[last_index(keys, key)] == key,
        last_index(keys, key) == -1 ==> forall|j: int| 0 <= j < keys.len() ==> keys[j] != key,
    decreases keys.len(),
{
    if keys.len() > 0 {
        lemma_last_index_bounds(keys.drop_last(), key);
        if last_index(keys, key) == -1 {
            assert forall|j: int| 0 <= j < keys.len() implies keys[j] != key by {
                if j < keys.len() - 1 {
                    assert(keys.drop_last()[j] == keys[j]);
                }
            }
        }
    }
}

/// The index of the last pair of `pairs` whose key is `key`.
fn find_key<V>(pairs: &Vec<(String, V)>, key: &str) -> (r: Option<usize>)
    ensures
        match r {
            Some(i) => i as int == last_index(keys_of(pairs@), key@) && i < pairs.len(),
            None => last_index(keys_of(pairs@), key@) == -1,
        },
{
    let ghost keys = keys_of(pairs@);
    let mut i: usize = pairs.len();
    proof {
        assert(keys.take(i as int) =~= keys);
    }
    while i > 0
        invariant
            i <= pairs.len(),
            keys == keys_of(pairs@),
            last_index(keys, key@) == last_index(keys.take(i as int), key@),
        decreases i,
    {
        proof {
            assert(keys.take(i as int).drop_last() =~= keys.take(i - 1));
            assert(keys.take(i as int).last() == pairs@[i - 1].0@);
        }
        if same_text(pairs[i - 1].0.as_str(), key) {
            return Some(i - 1);
        }
        i = i - 1;
    }
    None
}

proof fn lemma_lookup_last_index<V>(pairs: Seq<(Seq<char>, V)>, key: Seq<char>)
    ensures
        lookup(pairs, key) == if last_index(pairs.map_values(|p: (Seq<char>, V)| p.0), key) >= 0 {
            Some(pairs[last_index(pairs.map_values(|p: (Seq<char>, V)| p.0), key)].1)
        } else {
            None::<V>
        },
    decreases pairs.len(),
{
    if pairs.len() > 0 {
        lemma_lookup_last_index(pairs.drop_last(), key);
        assert(pairs.drop_last().map_values(|p: (Seq<char>, V)| p.0)
            =~= pairs.map_values(|p: (Seq<char>, V)| p.0).drop_last());
        lemma_last_index_bounds(pairs.drop_last().map_values(|p: (Seq<char>, V)| p.0), key);
    }
}

/// One command's help as a help file writes it. Every field is optional: anything
/// left out falls back when the help is resolved. `parameters` pairs each parameter's
/// name with its description.
pub struct RawCommandHelp {
    pub short_description: Option<String>,
    pub description: Option<String>,
    pub parameters: Vec<(String, String)>,
}

/// A [`RawCommandHelp`] as values.
pub struct RawHelpView {
    pub short_description: Option<Seq<char>>,
    pub description: Option<Seq<char>>,
    pub parameters: Seq<(Seq<char>, Seq<char>)>,
}

pub open spec fn opt_text(o: Option<String>) -> Option<Seq<char>> {
    match o {
        Some(s) => Some(s@),
        None => None,
    }
}

impl View for RawCommandHelp {
    type V = RawHelpView;

    open spec fn view(&self) -> RawHelpView {
        RawHelpView {
            short_description: opt_text(self.short_description),
            description: opt_text(self.description),
            parameters: crate::utils::text::pairs_view(self.parameters@),
        }
    }
}

/// A locale's commands, as values.
pub open spec fn commands_view(cmds: Seq<(String, RawCommandHelp)>) -> Seq<(Seq<char>, RawHelpView)> {
    cmds.map_values(|p: (String, RawCommandHelp)| (p.0@, p.1@))
}

/// The locales and their commands, as values.
pub open spec fn locales_view(ls: Seq<(String, Vec<(String, RawCommandHelp)>)>)
    -> Seq<(Seq<char>, Seq<(Seq<char>, RawHelpView)>)> {
    ls.map_values(|p: (String, Vec<(String, RawCommandHelp)>)| (p.0@, commands_view(p.1@)))
}

/// A help file as written: the `default` locale's commands, and every other top-level
/// key's commands, keyed by that key. Read from a file, the keys come sorted and once
/// each, as a map's keys do.
pub struct RawHelpConfig {
    pub default: Vec<(String, RawCommandHelp)>,
    pub locales: Vec<(String, Vec<(String, RawCommandHelp)>)>,
}

/// Help overrides checked against the registered commands: the default locale's, and
/// those of each locale Discord accepts.
pub struct HelpConfig {
    default: Vec<(String, RawCommandHelp)>,
    locales: Vec<(String, Vec<(String, RawCommandHelp)>)>,
}

/// A [`HelpConfig`] or [`RawHelpConfig`] as values.
pub struct HelpView {
    pub default: Seq<(Seq<char>, RawHelpView)>,
    pub locales: Seq<(Seq<char>, Seq<(Seq<char>, RawHelpView)>)>,
}

impl View for RawHelpConfig {
    type V = HelpView;

    open spec fn view(&self) -> HelpView {
        HelpView { default: commands_view(self.default@), locales: locales_view(self.locales@) }
    }
}

/// Whether the keys of `pairs` ascend strictly: sorted, and none repeated.
pub open spec fn keys_ascending<V>(pairs: Seq<(Seq<char>, V)>) -> bool {
    forall|i: int, j: int| 0 <= i < j < pairs.len() ==> text_lt(#[trigger] pairs[i].0, #[trigger] pairs[j].0)
}

impl HelpConfig {
    /// A checked config keeps its locales in ascending order, each once, as a sorted
    /// map of them would.
    #[verifier::type_invariant]
    spec fn locales_ascending(&self) -> bool {
        keys_ascending(locales_view(self.locales@))
    }
}

impl View for HelpConfig {
    type V = HelpView;

    closed spec fn view(&self) -> HelpView {
        HelpView { default: commands_view(self.default@), locales: locales_view(self.locales@) }
    }
}

/// An override whose short description is past Discord's limit loses it, so that the
/// command falls back to another text rather than fail to register.
pub open spec fn fit_short(raw: RawHelpView) -> RawHelpView {
    if raw.short_description is Some && raw.short_description->0.len() > SHORT_DESCRIPTION_LIMIT {
        RawHelpView { short_description: None, description: raw.description, parameters: raw.parameters }
    } else {
        raw
    }
}

/// A locale's commands checked against the registry: each unknown command dropped,
/// and each short description past the limit dropped.
pub open spec fn indexed(registry: Seq<EntryView>, cmds: Seq<(Seq<char>, RawHelpView)>) -> Seq<(Seq<char>, RawHelpView)>
    decreases cmds.len(),
{
    if cmds.len() == 0 {
        Seq::empty()
    } else {
        let rest = indexed(registry, cmds.drop_last());
        if registered(registry, cmds.last().0) {
            rest.push((cmds.last().0, fit_short(cmds.last().1)))
        } else {
            rest
        }
    }
}

/// The locales of a help file checked: each key Discord does not accept dropped, and
/// each kept locale's commands checked.
pub open spec fn indexed_locales(registry: Seq<EntryView>, ls: Seq<(Seq<char>, Seq<(Seq<char>, RawHelpView)>)>)
    -> Seq<(Seq<char>, Seq<(Seq<char>, RawHelpView)>)>
    decreases ls.len(),
{
    if ls.len() == 0 {
        Seq::empty()
    } else {
        let rest = indexed_locales(registry, ls.drop_last());
        if discord_locale(ls.last().0) {
            rest.push((ls.last().0, indexed(registry, ls.last().1)))
        } else {
            rest
        }
    }
}

/// A help file checked against the registry.
pub open spec fn config_from(registry: Seq<EntryView>, raw: HelpView) -> HelpView {
    HelpView { default: indexed(registry, raw.default), locales: indexed_locales(registry, raw.locales) }
}

/// Whether every short description a locale keeps fits Discord's limit.
pub open spec fn shorts_fit(cmds: Seq<(Seq<char>, RawHelpView)>) -> bool {
    forall|i: int| 0 <= i < cmds.len() && (#[trigger] cmds[i]).1.short_description is Some
        ==> cmds[i].1.short_description->0.len() <= SHORT_DESCRIPTION_LIMIT
}

/// What a checked help config keeps to: registered commands only, accepted locales
/// only, and short descriptions within the limit.
pub open spec fn well_formed(registry: Seq<EntryView>, cfg: HelpView) -> bool {
    &&& shorts_fit(cfg.default)
    &&& forall|i: int| 0 <= i < cfg.default.len() ==> registered(registry, (#[trigger] cfg.default[i]).0)
    &&& forall|i: int| 0 <= i < cfg.locales.len() ==> discord_locale((#[trigger] cfg.locales[i]).0)
    &&& forall|i: int| 0 <= i < cfg.locales.len() ==> shorts_fit((#[trigger] cfg.locales[i]).1)
    &&& forall|i: int, j: int| 0 <= i < cfg.locales.len() && 0 <= j < cfg.locales[i].1.len()
        ==> registered(registry, (#[trigger] cfg.locales[i].1[j]).0)
}

proof fn lemma_indexed_well_formed(registry: Seq<EntryView>, cmds: Seq<(Seq<char>, RawHelpView)>)
    ensures
        shorts_fit(indexed(registry, cmds)),
        forall|i: int| 0 <= i < indexed(registry, cmds).len() ==> registered(registry, (#[trigger] indexed(registry, cmds)[i]).0),
    decreases cmds.len(),
{
    if cmds.len() > 0 {
        lemma_indexed_well_formed(registry, cmds.drop_last());
    }
}

proof fn lemma_locales_well_formed(registry: Seq<EntryView>, ls: Seq<(Seq<char>, Seq<(Seq<char>, RawHelpView)>)>)
    ensures
        forall|i: int| 0 <= i < indexed_locales(registry, ls).len() ==> discord_locale((#[trigger] indexed_locales(registry, ls)[i]).0),
        forall|i: int| 0 <= i < indexed_locales(registry, ls).len() ==> shorts_fit((#[trigger] indexed_locales(registry, ls)[i]).1),
        forall|i: int, j: int| 0 <= i < indexed_locales(registry, ls).len() && 0 <= j < indexed_locales(registry, ls)[i].1.len()
            ==> registered(registry, (#[trigger] indexed_locales(registry, ls)[i].1[j]).0),
    decreases ls.len(),
{
    if ls.len() > 0 {
        lemma_locales_well_formed(registry, ls.drop_last());
        lemma_indexed_well_formed(registry, ls.last().1);
        let rest = indexed_locales(registry, ls.drop_last());
        let res = indexed_locales(registry, ls);
        assert forall|i: int| 0 <= i < res.len() implies discord_locale((#[trigger] res[i]).0) && shorts_fit(res[i].1) by {
            if i < rest.len() {
                assert(res[i] == rest[i]);
            }
        }
        assert forall|i: int, j: int| 0 <= i < res.len() && 0 <= j < res[i].1.len()
            implies registered(registry, (#[trigger] res[i].1[j]).0) by {
            if i < rest.len() {
                assert(res[i] == rest[i]);
            }
        }
    }
}

proof fn lemma_locales_ascending(registry: Seq<EntryView>, ls: Seq<(Seq<char>, Seq<(Seq<char>, RawHelpView)>)>)
    requires
        keys_ascending(ls),
    ensures
        keys_ascending(indexed_locales(registry, ls)),
        forall|i: int| 0 <= i < indexed_locales(registry, ls).len() ==> exists|j: int| 0 <= j < ls.len()
            && (#[trigger] indexed_locales(registry, ls)[i]).0 == ls[j].0,
    decreases ls.len(),
{
    if ls.len() > 0 {
        let init = ls.drop_last();
        assert(keys_ascending(init)) by {
            assert forall|i: int, j: int| 0 <= i < j < init.len() implies text_lt(#[trigger] init[i].0, #[trigger] init[j].0) by {
                assert(init[i] == ls[i] && init[j] == ls[j]);
            }
        }
        lemma_locales_ascending(registry, init);
        let rest = indexed_locales(registry, init);
        let res = indexed_locales(registry, ls);
        assert forall|i: int| 0 <= i < rest.len() implies text_lt((#[trigger] rest[i]).0, ls.last().0) by {
            let j = choose|j: int| 0 <= j < init.len() && rest[i].0 == init[j].0;
            assert(init[j] == ls[j]);
            assert(ls.last() == ls[ls.len() - 1]);
        }
        assert forall|i: int| 0 <= i < res.len() implies exists|j: int| 0 <= j < ls.len()
            && (#[trigger] res[i]).0 == ls[j].0 by {
            if i < rest.len() {
                assert(res[i] == rest[i]);
                let j = choose|j: int| 0 <= j < init.len() && rest[i].0 == init[j].0;
                assert(init[j] == ls[j]);
            } else {
                assert(res[i].0 == ls[ls.len() - 1].0);
            }
        }
        assert forall|i: int, j: int| 0 <= i < j < res.len() implies text_lt(#[trigger] res[i].0, #[trigger] res[j].0) by {
            if j < rest.len() {
                assert(res[i] == rest[i] && res[j] == rest[j]);
            } else {
                assert(res[i] == rest[i]);
                assert(res[j].0 == ls.last().0);
            }
        }
    }
}

/// One locale's commands checked against the registry.
fn index_commands(registry: &Vec<CommandEntry>, cmds: Vec<(String, RawCommandHelp)>) -> (r: Vec<(String, RawCommandHelp)>)
    ensures
        commands_view(r@) == indexed(registry_view(registry@), commands_view(cmds@)),
{
    let ghost all = commands_view(cmds@);
    let ghost reg = registry_view(registry@);
    let mut out: Vec<(String, RawCommandHelp)> = Vec::new();
    proof {
        assert(all.take(0) =~= Seq::<(Seq<char>, RawHelpView)>::empty());
        assert(commands_view(out@) =~= Seq::<(Seq<char>, RawHelpView)>::empty());
    }
    for pair in it: cmds.into_iter()
        invariant
            it.seq().map_values(|p: (String, RawCommandHelp)| (p.0@, p.1@)) == all,
            reg == registry_view(registry@),
            commands_view(out@) == indexed(reg, all.take(it.index() as int)),
    {
        let ghost pos = it.index();
        let (name, mut raw) = pair;
        proof {
            assert(all.take(pos + 1).drop_last() =~= all.take(pos as int));
            assert(all.take(pos + 1).last() == (name@, raw@));
        }
        match crate::models::command::find_command(registry, name.as_str()) {
            Ok(e) => {
                proof {
                    let k = choose|k: int| 0 <= k < registry@.len() && registry@[k] == *e
                        && e@.name == name@
                        && forall|j: int| 0 <= j < k ==> #[trigger] registry@[j]@.name != name@;
                    assert(reg[k] == registry@[k]@);
                    assert(registered(reg, name@));
                }
                let too_long = match &raw.short_description {
                    Some(s) => s.as_str().unicode_len() > SHORT_DESCRIPTION_LIMIT,
                    None => false,
                };
                let ghost before_raw = raw@;
                if too_long {
                    raw.short_description = None;
                }
                proof {
                    assert(raw@ == fit_short(before_raw));
                }
                let ghost before = commands_view(out@);
                out.push((name, raw));
                proof {
                    assert(commands_view(out@) =~= before.push((name@, raw@)));
                }
            },
            Err(_) => {},
        }
    }
    proof {
        assert(all.take(all.len() as int) =~= all);
    }
    out
}

impl HelpConfig {
    /// A help file checked against the registered commands: every command name that is
    /// not registered is dropped, every top-level key other than `default` that is not
    /// a locale Discord accepts is dropped (a typo would otherwise become an inert
    /// locale), and every short description past Discord's limit is dropped so that
    /// the command falls back rather than fail to register.
    pub fn from_raw(registry: &Vec<CommandEntry>, raw: RawHelpConfig) -> (r: HelpConfig)
        requires
            keys_ascending(raw@.locales),
        ensures
            r@ == config_from(registry_view(registry@), raw@),
            well_formed(registry_view(registry@), r@),
    {
        let ghost rv = raw@;
        let ghost reg = registry_view(registry@);
        let default = index_commands(registry, raw.default);
        let ghost all = rv.locales;
        let mut locales: Vec<(String, Vec<(String, RawCommandHelp)>)> = Vec::new();
        proof {
            assert(all.take(0) =~= Seq::<(Seq<char>, Seq<(Seq<char>, RawHelpView)>)>::empty());
            assert(locales_view(locales@) =~= Seq::<(Seq<char>, Seq<(Seq<char>, RawHelpView)>)>::empty());
        }
        for pair in it: raw.locales.into_iter()
            invariant
                it.seq().map_values(|p: (String, Vec<(String, RawCommandHelp)>)| (p.0@, commands_view(p.1@))) == all,
                reg == registry_view(registry@),
                locales_view(locales@) == indexed_locales(reg, all.take(it.index() as int)),
        {
            let ghost pos = it.index();
            let (locale, cmds) = pair;
            proof {
                assert(all.take(pos + 1).drop_last() =~= all.take(pos as int));
                assert(all.take(pos + 1).last() == (locale@, commands_view(cmds@)));
            }
            if is_discord_locale(locale.as_str()) {
                let indexed_cmds = index_commands(registry, cmds);
                let ghost before = locales_view(locales@);
                locales.push((locale, indexed_cmds));
                proof {
                    assert(locales_view(locales@) =~= before.push((locale@, commands_view(indexed_cmds@))));
                }
            }
        }
        proof {
            assert(all.take(all.len() as int) =~= all);
        }
        proof {
            lemma_indexed_well_formed(reg, rv.default);
            lemma_locales_well_formed(reg, rv.locales);
            lemma_locales_ascending(reg, rv.locales);
        }
        HelpConfig { default, locales }
    }
}

/// The override a locale gives a command, if the locale and the command are there.
pub open spec fn locale_override(cfg: HelpView, locale: Option<Seq<char>>, name: Seq<char>) -> Option<RawHelpView> {
    match locale {
        Some(l) => match lookup(cfg.locales, l) {
            Some(cmds) => lookup(cmds, name),
            None => None,
        },
        None => None,
    }
}

/// The override the default locale gives a command.
pub open spec fn default_override(cfg: HelpView, name: Seq<char>) -> Option<RawHelpView> {
    lookup(cfg.default, name)
}

pub open spec fn short_of(r: Option<RawHelpView>) -> Option<Seq<char>> {
    match r {
        Some(r) => r.short_description,
        None => None,
    }
}

pub open spec fn description_of(r: Option<RawHelpView>) -> Option<Seq<char>> {
    match r {
        Some(r) => r.description,
        None => None,
    }
}

pub open spec fn param_of(r: Option<RawHelpView>, name: Seq<char>) -> Option<Seq<char>> {
    match r {
        Some(r) => lookup(r.parameters, name),
        None => None,
    }
}

/// The first text there is: `a`, else `b`, else `fallback`.
pub open spec fn first_of(a: Option<Seq<char>>, b: Option<Seq<char>>, fallback: Seq<char>) -> Seq<char> {
    match a {
        Some(x) => x,
        None => match b {
            Some(x) => x,
            None => fallback,
        },
    }
}

/// A command's short description for `locale`: the locale's override, else the default
/// locale's, else the registered one.
pub open spec fn resolved_short(cfg: HelpView, locale: Option<Seq<char>>, e: EntryView) -> Seq<char> {
    first_of(short_of(locale_override(cfg, locale, e.name)), short_of(default_override(cfg, e.name)), e.short_description)
}

/// A command's description for `locale`, falling back the same way.
pub open spec fn resolved_description(cfg: HelpView, locale: Option<Seq<char>>, e: EntryView) -> Seq<char> {
    first_of(description_of(locale_override(cfg, locale, e.name)), description_of(default_override(cfg, e.name)), e.description)
}

/// One parameter's description for `locale`, falling back the same way.
pub open spec fn resolved_param(cfg: HelpView, locale: Option<Seq<char>>, e: EntryView, p: ParamView) -> Seq<char> {
    first_of(param_of(locale_override(cfg, locale, e.name), p.name), param_of(default_override(cfg, e.name), p.name), p.description)
}

/// No two parameters of a command share a name, as no two parameters of one function
/// can.
pub open spec fn distinct_params(e: EntryView) -> bool {
    forall|i: int, j: int| 0 <= i < j < e.parameters.len() ==> #[trigger] e.parameters[i].name != #[trigger] e.parameters[j].name
}

/// Whether a list of named texts is sorted by name, each name strictly before the next.
pub open spec fn sorted_by_name(ps: Seq<(&str, &str)>) -> bool {
    forall|i: int, j: int| 0 <= i < j < ps.len() ==> text_lt(#[trigger] ps[i].0@, #[trigger] ps[j].0@)
}

/// Whether each of `ps` is one of the command's parameters, paired with its description
/// resolved for `locale`.
pub open spec fn params_resolved(ps: Seq<(&str, &str)>, cfg: HelpView, locale: Option<Seq<char>>, e: EntryView) -> bool {
    forall|i: int| 0 <= i < ps.len() ==> resolved_pair(#[trigger] ps[i], cfg, locale, e)
}

/// Whether `pair` is one of the command's parameters with its description resolved for
/// `locale`.
pub open spec fn resolved_pair(pair: (&str, &str), cfg: HelpView, locale: Option<Seq<char>>, e: EntryView) -> bool {
    exists|j: int| 0 <= j < e.parameters.len() && pair.0@ == e.parameters[j].name
        && pair.1@ == resolved_param(cfg, locale, e, #[trigger] e.parameters[j])
}

/// A command's help resolved for one locale, ready to render. Its parameters are
/// sorted by name.
pub struct ResolvedHelp<'a> {
    pub name: &'a str,
    pub short_description: &'a str,
    pub description: &'a str,
    pub parameters: Vec<(&'a str, &'a str)>,
}

/// Insert a named text into a list sorted by name that does not hold the name yet.
fn insert_sorted<'a>(out: &mut Vec<(&'a str, &'a str)>, name: &'a str, text: &'a str) -> (k: usize)
    requires
        sorted_by_name(old(out)@),
        forall|i: int| 0 <= i < old(out)@.len() ==> (#[trigger] old(out)@[i]).0@ != name@,
    ensures
        k <= old(out)@.len(),
        final(out)@ == old(out)@.insert(k as int, (name, text)),
        sorted_by_name(final(out)@),
{
    let mut k: usize = 0;
    while k < out.len() && text_less(out[k].0, name)
        invariant
            k <= out.len(),
            forall|i: int| 0 <= i < k ==> text_lt((#[trigger] out@[i]).0@, name@),
        decreases out.len() - k,
    {
        k = k + 1;
    }
    let ghost before = out@;
    proof {
        if k < before.len() {
            lemma_text_lt_total(before[k as int].0@, name@);
            assert(text_lt(name@, before[k as int].0@));
            assert forall|j: int| k <= j < before.len() implies text_lt(name@, #[trigger] before[j].0@) by {
                if j > k {
                    lemma_text_lt_trans(name@, before[k as int].0@, before[j].0@);
                }
            }
        }
    }
    out.insert(k, (name, text));
    proof {
        let after = out@;
        assert forall|i: int, j: int| 0 <= i < j < after.len() implies text_lt(#[trigger] after[i].0@, #[trigger] after[j].0@) by {
            if i < k && j < k {
                assert(after[i] == before[i] && after[j] == before[j]);
            } else if i < k && j == k {
            } else if i < k {
                assert(after[i] == before[i] && after[j] == before[j - 1]);
                lemma_text_lt_trans(before[i].0@, name@, before[j - 1].0@);
            } else if i == k {
                assert(after[j] == before[j - 1]);
            } else {
                assert(after[i] == before[i - 1] && after[j] == before[j - 1]);
            }
        }
    }
    k
}

/// The index of the last pair of `pairs` naming `key`, as values.
proof fn lemma_commands_keys(cmds: Seq<(String, RawCommandHelp)>)
    ensures
        commands_view(cmds).map_values(|p: (Seq<char>, RawHelpView)| p.0) =~= keys_of(cmds),
{
}

proof fn lemma_locales_keys(ls: Seq<(String, Vec<(String, RawCommandHelp)>)>)
    ensures
        locales_view(ls).map_values(|p: (Seq<char>, Seq<(Seq<char>, RawHelpView)>)| p.0) =~= keys_of(ls),
{
}

proof fn lemma_params_keys(ps: Seq<(String, String)>)
    ensures
        crate::utils::text::pairs_view(ps).map_values(|p: (Seq<char>, Seq<char>)| p.0) =~= keys_of(ps),
{
}

/// The override found for a command among one locale's commands.
fn find_command_help<'a>(cmds: &'a Vec<(String, RawCommandHelp)>, name: &str) -> (r: Option<&'a RawCommandHelp>)
    ensures
        match r {
            Some(raw) => lookup(commands_view(cmds@), name@) == Some(raw@),
            None => lookup(commands_view(cmds@), name@) is None,
        },
{
    proof {
        lemma_lookup_last_index(commands_view(cmds@), name@);
        lemma_commands_keys(cmds@);
    }
    match find_key(cmds, name) {
        Some(i) => Some(&cmds[i].1),
        None => None,
    }
}

/// The description a raw help gives a parameter.
fn find_param<'a>(raw: Option<&'a RawCommandHelp>, name: &str) -> (r: Option<&'a str>)
    ensures
        match r {
            Some(t) => param_of(opt_raw_view(raw), name@) == Some(t@),
            None => param_of(opt_raw_view(raw), name@) is None,
        },
{
    match raw {
        None => None,
        Some(raw) => {
            proof {
                lemma_lookup_last_index(raw@.parameters, name@);
                lemma_params_keys(raw.parameters@);
            }
            match find_key(&raw.parameters, name) {
                Some(i) => Some(raw.parameters[i].1.as_str()),
                None => None,
            }
        },
    }
}

pub open spec fn opt_raw_view(r: Option<&RawCommandHelp>) -> Option<RawHelpView> {
    match r {
        Some(r) => Some(r@),
        None => None,
    }
}

/// The first text there is.
fn first_text<'a>(a: Option<&'a str>, b: Option<&'a str>, fallback: &'a str) -> (r: &'a str)
    ensures
        r@ == first_of(opt_str(a), opt_str(b), fallback@),
{
    match a {
        Some(x) => x,
        None => match b {
            Some(x) => x,
            None => fallback,
        },
    }
}

pub open spec fn opt_str(a: Option<&str>) -> Option<Seq<char>> {
    match a {
        Some(s) => Some(s@),
        None => None,
    }
}

fn opt_as_str<'a>(s: &'a Option<String>) -> (r: Option<&'a str>)
    ensures
        opt_str(r) == opt_text(*s),
{
    match s {
        Some(s) => Some(s.as_str()),
        None => None,
    }
}

impl HelpConfig {
    /// A config with no overrides: every command resolves to its registered text.
    pub fn empty() -> (r: HelpConfig)
        ensures
            r@.default.len() == 0,
            r@.locales.len() == 0,
    {
        let r = HelpConfig { default: Vec::new(), locales: Vec::new() };
        proof {
            assert(commands_view(r.default@).len() == 0);
            assert(locales_view(r.locales@).len() == 0);
        }
        r
    }

    /// The overrides `locale` gives the command named `name`.
    fn locale_raw(&self, locale: Option<&str>, name: &str) -> (r: Option<&RawCommandHelp>)
        ensures
            opt_raw_view(r) == locale_override(self@, opt_str(locale), name@),
    {
        match locale {
            None => None,
            Some(l) => {
                proof {
                    lemma_lookup_last_index(self@.locales, l@);
                    lemma_locales_keys(self.locales@);
                }
                match find_key(&self.locales, l) {
                    Some(i) => find_command_help(&self.locales[i].1, name),
                    None => None,
                }
            },
        }
    }

    /// Resolve a command's help for `locale` (`None` for the default locale), falling
    /// back field by field: the locale's override, then the default locale's, then the
    /// text the command was registered with.
    pub fn resolve<'a>(&'a self, locale: Option<&str>, entry: &'a CommandEntry) -> (r: ResolvedHelp<'a>)
        requires
            distinct_params(entry@),
        ensures
            r.name@ == entry@.name,
            r.short_description@ == resolved_short(self@, opt_str(locale), entry@),
            r.description@ == resolved_description(self@, opt_str(locale), entry@),
            r.parameters@.len() == entry@.parameters.len(),
            sorted_by_name(r.parameters@),
            params_resolved(r.parameters@, self@, opt_str(locale), entry@),
    {
        let locale_raw = self.locale_raw(locale, entry.name.as_str());
        let default_raw = find_command_help(&self.default, entry.name.as_str());
        let short_description = first_text(
            match locale_raw { Some(r) => opt_as_str(&r.short_description), None => None },
            match default_raw { Some(r) => opt_as_str(&r.short_description), None => None },
            entry.short_description.as_str(),
        );
        let description = first_text(
            match locale_raw { Some(r) => opt_as_str(&r.description), None => None },
            match default_raw { Some(r) => opt_as_str(&r.description), None => None },
            entry.description.as_str(),
        );
        let ghost ev = entry@;
        let ghost cfg = self@;
        let ghost loc = opt_str(locale);
        let mut parameters: Vec<(&'a str, &'a str)> = Vec::new();
        let mut m: usize = 0;
        while m < entry.parameters.len()
            invariant
                m <= entry.parameters.len(),
                ev == entry@,
                cfg == self@,
                loc == opt_str(locale),
                distinct_params(ev),
                opt_raw_view(locale_raw) == locale_override(cfg, loc, ev.name),
                opt_raw_view(default_raw) == default_override(cfg, ev.name),
                parameters@.len() == m,
                sorted_by_name(parameters@),
                forall|i: int| 0 <= i < parameters@.len() ==> exists|j: int| 0 <= j < m
                    && (#[trigger] parameters@[i]).0@ == ev.parameters[j].name
                    && parameters@[i].1@ == resolved_param(cfg, loc, ev, ev.parameters[j]),
            decreases entry.parameters.len() - m,
        {
            let p = &entry.parameters[m];
            assert(ev.parameters[m as int] == p@);
            let text = first_text(find_param(locale_raw, p.name.as_str()), find_param(default_raw, p.name.as_str()),
                p.description.as_str());
            proof {
                assert forall|i: int| 0 <= i < parameters@.len() implies (#[trigger] parameters@[i]).0@ != p.name@ by {
                    let j = choose|j: int| 0 <= j < m && parameters@[i].0@ == ev.parameters[j].name
                        && parameters@[i].1@ == resolved_param(cfg, loc, ev, ev.parameters[j]);
                    assert(ev.parameters[j].name != ev.parameters[m as int].name);
                }
            }
            let ghost before = parameters@;
            let k = insert_sorted(&mut parameters, p.name.as_str(), text);
            proof {
                assert forall|i: int| 0 <= i < parameters@.len() implies exists|j: int| 0 <= j < m + 1
                    && (#[trigger] parameters@[i]).0@ == ev.parameters[j].name
                    && parameters@[i].1@ == resolved_param(cfg, loc, ev, ev.parameters[j]) by {
                    if i < k {
                        assert(parameters@[i] == before[i]);
                    } else if i == k {
                        assert(parameters@[i].0@ == ev.parameters[m as int].name);
                    } else {
                        assert(parameters@[i] == before[i - 1]);
                    }
                }
            }
            m = m + 1;
        }
        proof {
            assert forall|i: int| 0 <= i < parameters@.len() implies resolved_pair(#[trigger] parameters@[i], cfg, loc, ev) by {
                let j = choose|j: int| 0 <= j < m && parameters@[i].0@ == ev.parameters[j].name
                    && parameters@[i].1@ == resolved_param(cfg, loc, ev, ev.parameters[j]);
                assert(0 <= j < ev.parameters.len());
                assert(parameters@[i].1@ == resolved_param(cfg, loc, ev, ev.parameters[j]));
            }
            assert(params_resolved(parameters@, cfg, loc, ev));
        }
        let r = ResolvedHelp { name: entry.name.as_str(), short_description, description, parameters };
        assert(r.parameters@ == parameters@);
        r
    }

    /// The overrides of `name`, one per locale that customizes the command, in
    /// ascending locale order. Used to register Discord's per-locale descriptions.
    pub fn locale_overrides<'a>(&'a self, name: &str) -> (r: Vec<LocaleOverride<'a>>)
        ensures
            r@.map_values(|o: LocaleOverride<'a>| (o.locale_text(), o.raw_view()))
                == overrides_of(self@.locales, name@),
            keys_ascending(r@.map_values(|o: LocaleOverride<'a>| (o.locale_text(), o.raw_view()))),
    {
        proof {
            use_type_invariant(self);
            lemma_overrides_ascending(self@.locales, name@);
        }
        let ghost ls = self@.locales;
        let mut out: Vec<LocaleOverride<'a>> = Vec::new();
        let mut i: usize = 0;
        proof {
            assert(ls.take(0) =~= Seq::<(Seq<char>, Seq<(Seq<char>, RawHelpView)>)>::empty());
            assert(out@.map_values(|o: LocaleOverride<'a>| (o.locale_text(), o.raw_view()))
                =~= Seq::<(Seq<char>, RawHelpView)>::empty());
        }
        while i < self.locales.len()
            invariant
                i <= self.locales.len(),
                ls == self@.locales,
                ls.len() == self.locales@.len(),
                out@.map_values(|o: LocaleOverride<'a>| (o.locale_text(), o.raw_view()))
                    == overrides_of(ls.take(i as int), name@),
            decreases self.locales.len() - i,
        {
            assert(ls[i as int] == (self.locales@[i as int].0@, commands_view(self.locales@[i as int].1@)));
            proof {
                assert(ls.take(i + 1).drop_last() =~= ls.take(i as int));
                assert(ls.take(i + 1).last() == ls[i as int]);
            }
            let ghost before = out@.map_values(|o: LocaleOverride<'a>| (o.locale_text(), o.raw_view()));
            match find_command_help(&self.locales[i].1, name) {
                Some(raw) => {
                    let o = LocaleOverride { locale: self.locales[i].0.as_str(), raw };
                    out.push(o);
                    proof {
                        assert(out@.map_values(|o: LocaleOverride<'a>| (o.locale_text(), o.raw_view()))
                            =~= before.push((o.locale_text(), o.raw_view())));
                    }
                },
                None => {},
            }
            i = i + 1;
        }
        proof {
            assert(ls.take(ls.len() as int) =~= ls);
        }
        out
    }
}

/// The overrides a config's `locales` give the command named `name`: for each locale
/// that customizes it, in order, the locale and its override.
pub open spec fn overrides_of(locales: Seq<(Seq<char>, Seq<(Seq<char>, RawHelpView)>)>, name: Seq<char>)
    -> Seq<(Seq<char>, RawHelpView)>
    decreases locales.len(),
{
    if locales.len() == 0 {
        Seq::empty()
    } else {
        let rest = overrides_of(locales.drop_last(), name);
        match lookup(locales.last().1, name) {
            Some(raw) => rest.push((locales.last().0, raw)),
            None => rest,
        }
    }
}

proof fn lemma_overrides_ascending(locales: Seq<(Seq<char>, Seq<(Seq<char>, RawHelpView)>)>, name: Seq<char>)
    requires
        keys_ascending(locales),
    ensures
        keys_ascending(overrides_of(locales, name)),
        forall|i: int| 0 <= i < overrides_of(locales, name).len() ==> exists|j: int| 0 <= j < locales.len()
            && (#[trigger] overrides_of(locales, name)[i]).0 == locales[j].0,
    decreases locales.len(),
{
    if locales.len() > 0 {
        let init = locales.drop_last();
        assert(keys_ascending(init)) by {
            assert forall|i: int, j: int| 0 <= i < j < init.len() implies text_lt(#[trigger] init[i].0, #[trigger] init[j].0) by {
                assert(init[i] == locales[i] && init[j] == locales[j]);
            }
        }
        lemma_overrides_ascending(init, name);
        let rest = overrides_of(init, name);
        let res = overrides_of(locales, name);
        assert forall|i: int| 0 <= i < rest.len() implies text_lt((#[trigger] rest[i]).0, locales.last().0) by {
            let j = choose|j: int| 0 <= j < init.len() && rest[i].0 == init[j].0;
            assert(init[j] == locales[j]);
        }
        assert forall|i: int| 0 <= i < res.len() implies exists|j: int| 0 <= j < locales.len()
            && (#[trigger] res[i]).0 == locales[j].0 by {
            if i < rest.len() {
                assert(res[i] == rest[i]);
                let j = choose|j: int| 0 <= j < init.len() && rest[i].0 == init[j].0;
                assert(init[j] == locales[j]);
            } else {
                assert(res[i].0 == locales[locales.len() - 1].0);
            }
        }
        assert forall|i: int, j: int| 0 <= i < j < res.len() implies text_lt(#[trigger] res[i].0, #[trigger] res[j].0) by {
            if j < rest.len() {
                assert(res[i] == rest[i] && res[j] == rest[j]);
            } else {
                assert(res[i] == rest[i]);
            }
        }
    }
}

/// One locale's overrides for a command. A field is `None` where that locale does not
/// translate it.
pub struct LocaleOverride<'a> {
    pub locale: &'a str,
    raw: &'a RawCommandHelp,
}

impl<'a> LocaleOverride<'a> {
    /// The overrides, as values.
    pub closed spec fn raw_view(&self) -> RawHelpView {
        self.raw@
    }

    /// The locale, as values.
    pub closed spec fn locale_text(&self) -> Seq<char> {
        self.locale@
    }

    /// The locale's short description of the command.
    pub fn short_description(&self) -> (r: Option<&'a str>)
        ensures
            opt_str(r) == self.raw_view().short_description,
    {
        opt_as_str(&self.raw.short_description)
    }

    /// The locale's description of the command's parameter `name`.
    pub fn parameter(&self, name: &str) -> (r: Option<&'a str>)
        ensures
            opt_str(r) == lookup(self.raw_view().parameters, name@),
    {
        find_param(Some(self.raw), name)
    }
}

/// Law: the short description of every command, in every locale, fits Discord's
/// limit whenever the registered one does, for any help config that was checked.
pub proof fn resolved_short_descriptions_fit(registry: Seq<EntryView>, cfg: HelpView, locale: Option<Seq<char>>, e: EntryView)
    requires
        well_formed(registry, cfg),
        e.short_description.len() <= SHORT_DESCRIPTION_LIMIT,
    ensures
        resolved_short(cfg, locale, e).len() <= SHORT_DESCRIPTION_LIMIT,
{
    lemma_lookup_in(cfg.default, e.name);
    let d = default_override(cfg, e.name);
    if d is Some {
        let k = choose|k: int| 0 <= k < cfg.default.len() && cfg.default[k] == (e.name, d->0);
        assert(shorts_fit(cfg.default));
        assert(cfg.default[k].1 == d->0);
    }
    match locale {
        Some(l) => {
            lemma_lookup_in(cfg.locales, l);
            match lookup(cfg.locales, l) {
                Some(cmds) => {
                    let i = choose|i: int| 0 <= i < cfg.locales.len() && cfg.locales[i] == (l, cmds);
                    assert(shorts_fit(cfg.locales[i].1));
                    lemma_lookup_in(cmds, e.name);
                    let o = lookup(cmds, e.name);
                    if o is Some {
                        let k = choose|k: int| 0 <= k < cmds.len() && cmds[k] == (e.name, o->0);
                        assert(cmds[k].1 == o->0);
                    }
                },
                None => {},
            }
        },
        None => {},
    }
}

/// A value found by `lookup` is one of the pairs' values.
pub proof fn lemma_lookup_in<V>(pairs: Seq<(Seq<char>, V)>, key: Seq<char>)
    ensures
        lookup(pairs, key) matches Some(v) ==> exists|k: int| 0 <= k < pairs.len() && #[trigger] pairs[k] == (key, v),
    decreases pairs.len(),
{
    if pairs.len() > 0 {
        lemma_lookup_in(pairs.drop_last(), key);
        if pairs.last().0 == key {
            assert(pairs[pairs.len() - 1] == (key, pairs.last().1));
        } else if lookup(pairs.drop_last(), key) is Some {
            let v = lookup(pairs.drop_last(), key)->0;
            let k = choose|k: int| 0 <= k < pairs.drop_last().len() && #[trigger] pairs.drop_last()[k] == (key, v);
            assert(pairs[k] == pairs.drop_last()[k]);
        }
    }
}

/// Law: a locale a checked config does not hold resolves every command exactly as the
/// default locale does; in particular a locale Discord does not accept always does.
pub proof fn unknown_locales_resolve_as_the_default(registry: Seq<EntryView>, cfg: HelpView, l: Seq<char>, e: EntryView)
    requires
        well_formed(registry, cfg),
        !discord_locale(l),
    ensures
        resolved_short(cfg, Some(l), e) == resolved_short(cfg, None, e),
        resolved_description(cfg, Some(l), e) == resolved_description(cfg, None, e),
        forall|p: ParamView| resolved_param(cfg, Some(l), e, p) == resolved_param(cfg, None, e, p),
{
    lemma_lookup_in(cfg.locales, l);
    if lookup(cfg.locales, l) is Some {
        let cmds = lookup(cfg.locales, l)->0;
        let i = choose|i: int| 0 <= i < cfg.locales.len() && #[trigger] cfg.locales[i] == (l, cmds);
        assert(discord_locale(cfg.locales[i].0));
    }
}

/// Law: a locale's own override comes first. When the locale holds an override of the
/// command, the resolved short description and description are the override's own
/// wherever it gives them, whatever the default locale says; where the locale gives
/// none, the default locale's override is next, and the registered text last.
pub proof fn a_locale_override_comes_first(cfg: HelpView, l: Seq<char>, e: EntryView)
    ensures
        lookup(cfg.locales, l) matches Some(cmds) ==> lookup(cmds, e.name) matches Some(o)
            ==> o.short_description matches Some(s) ==> resolved_short(cfg, Some(l), e) == s,
        lookup(cfg.locales, l) matches Some(cmds) ==> lookup(cmds, e.name) matches Some(o)
            ==> o.description matches Some(d) ==> resolved_description(cfg, Some(l), e) == d,
        short_of(locale_override(cfg, Some(l), e.name)) is None && lookup(cfg.default, e.name) is Some
            && lookup(cfg.default, e.name)->0.short_description is Some
            ==> resolved_short(cfg, Some(l), e) == lookup(cfg.default, e.name)->0.short_description->0,
        short_of(locale_override(cfg, Some(l), e.name)) is None && short_of(default_override(cfg, e.name)) is None
            ==> resolved_short(cfg, Some(l), e) == e.short_description,
        lookup(cfg.default, e.name) matches Some(o) ==> o.short_description matches Some(s)
            ==> resolved_short(cfg, None, e) == s,
        lookup(cfg.default, e.name) is None ==> resolved_short(cfg, None, e) == e.short_description,
{
    match lookup(cfg.locales, l) {
        Some(cmds) => match lookup(cmds, e.name) {
            Some(o) => {
                assert(locale_override(cfg, Some(l), e.name) == Some(o));
            },
            None => {},
        },
        None => {},
    }
}

/// The locales Discord accepts as keys in a localization map, as its documentation
/// lists them.
pub open spec fn discord_locales() -> Set<Seq<char>> {
    set![
        "id"@, "da"@, "de"@, "en-GB"@, "en-US"@, "es-ES"@, "es-419"@, "fr"@, "hr"@, "it"@, "lt"@,
        "hu"@, "nl"@, "no"@, "pl"@, "pt-BR"@, "ro"@, "fi"@, "sv-SE"@, "vi"@, "tr"@, "cs"@, "el"@,
        "bg"@, "ru"@, "uk"@, "hi"@, "th"@, "zh-CN"@, "ja"@, "zh-TW"@, "ko"@
    ]
}

proof fn lemma_accepted_locale_kept(
    registry: Seq<EntryView>,
    ls: Seq<(Seq<char>, Seq<(Seq<char>, RawHelpView)>)>,
    l: Seq<char>,
)
    requires
        discord_locale(l),
    ensures
        lookup(indexed_locales(registry, ls), l) == match lookup(ls, l) {
            Some(cmds) => Some(indexed(registry, cmds)),
            None => None::<Seq<(Seq<char>, RawHelpView)>>,
        },
    decreases ls.len(),
{
    if ls.len() > 0 {
        lemma_accepted_locale_kept(registry, ls.drop_last(), l);
        let rest = indexed_locales(registry, ls.drop_last());
        if discord_locale(ls.last().0) {
            let pushed = rest.push((ls.last().0, indexed(registry, ls.last().1)));
            assert(pushed.drop_last() =~= rest);
        }
    }
}

/// Law: every locale on Discord's list is kept. A checked help file holds, for each such
/// locale, exactly the section the file gives it, checked against the registry, so that
/// locale's overrides are what resolving for it finds.
pub proof fn discord_locales_are_kept(registry: Seq<EntryView>, raw: HelpView, l: Seq<char>)
    requires
        discord_locales().contains(l),
    ensures
        lookup(config_from(registry, raw).locales, l) == match lookup(raw.locales, l) {
            Some(cmds) => Some(indexed(registry, cmds)),
            None => None::<Seq<(Seq<char>, RawHelpView)>>,
        },
{
    assert(discord_locale(l));
    lemma_accepted_locale_kept(registry, raw.locales, l);
}

impl Default for HelpConfig {
    /// A config with no overrides.
    fn default() -> (r: HelpConfig)
        ensures
            r@.default.len() == 0,
            r@.locales.len() == 0,
    {
        HelpConfig::empty()
    }
}

} // verus!
