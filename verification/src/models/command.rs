//! The bot's commands as registered: names, default help text, and parameters.

use vstd::prelude::*;
use vstd::string::*;
use crate::utils::text::{chars_of, lemma_text_lt_total, lemma_text_lt_trans, same_text, text_less, text_lt};

verus! {

/// Default help text for one command parameter.
#[derive(Debug)]
pub struct ParamMeta {
    pub name: String,
    pub description: String,
}

/// A [`ParamMeta`] as values.
pub struct ParamView {
    pub name: Seq<char>,
    pub description: Seq<char>,
}

impl View for ParamMeta {
    type V = ParamView;

    open spec fn view(&self) -> ParamView {
        ParamView { name: self.name@, description: self.description@ }
    }
}

/// One command's registration: the source of its default, unlocalized help text.
/// Locale files only override it.
pub struct CommandEntry {
    pub name: String,
    pub short_description: String,
    /// The `/help` body.
    pub description: String,
    /// Whether `/help` leaves this command out of the commands it offers.
    pub hide_in_help: bool,
    pub parameters: Vec<ParamMeta>,
}

/// A [`CommandEntry`] as values.
pub struct EntryView {
    pub name: Seq<char>,
    pub short_description: Seq<char>,
    pub description: Seq<char>,
    pub hide_in_help: bool,
    pub parameters: Seq<ParamView>,
}

impl View for CommandEntry {
    type V = EntryView;

    open spec fn view(&self) -> EntryView {
        EntryView {
            name: self.name@,
            short_description: self.short_description@,
            description: self.description@,
            hide_in_help: self.hide_in_help,
            parameters: self.parameters@.map_values(|p: ParamMeta| p@),
        }
    }
}

/// Whether a command declares a parameter named `name`.
pub open spec fn declares_param(e: EntryView, name: Seq<char>) -> bool {
    exists|i: int| 0 <= i < e.parameters.len() && #[trigger] e.parameters[i].name == name
}

impl CommandEntry {
    /// Whether this command has a parameter named `name`.
    pub fn has_param(&self, name: &str) -> (r: bool)
        ensures
            r == declares_param(self@, name@),
    {
        let mut i: usize = 0;
        while i < self.parameters.len()
            invariant
                i <= self.parameters.len(),
                forall|j: int| 0 <= j < i ==> #[trigger] self@.parameters[j].name != name@,
            decreases self.parameters.len() - i,
        {
            if same_text(self.parameters[i].name.as_str(), name) {
                assert(self@.parameters[i as int].name == name@);
                return true;
            }
            i = i + 1;
        }
        false
    }
}

/// The registered commands, as values.
pub open spec fn registry_view(registry: Seq<CommandEntry>) -> Seq<EntryView> {
    registry.map_values(|e: CommandEntry| e@)
}

/// Whether `name` is a registered command.
pub open spec fn registered(registry: Seq<EntryView>, name: Seq<char>) -> bool {
    exists|i: int| 0 <= i < registry.len() && #[trigger] registry[i].name == name
}

/// Whether registrations are ordered by name: none sorts before one ahead of it.
pub open spec fn ordered_by_name(entries: Seq<CommandEntry>) -> bool {
    forall|i: int, j: int| 0 <= i < j < entries.len()
        ==> !text_lt(#[trigger] entries[j]@.name, #[trigger] entries[i]@.name)
}

/// Every registered command, ordered by name: the registrations `entries` arrive in
/// whatever order they were collected in, and this order is what Discord shows.
pub fn registry(entries: Vec<CommandEntry>) -> (r: Vec<CommandEntry>)
    ensures
        r@.to_multiset() == entries@.to_multiset(),
        ordered_by_name(r@),
{
    let ghost all = entries@;
    let mut out: Vec<CommandEntry> = Vec::new();
    proof {
        assert(all.take(0) =~= Seq::<CommandEntry>::empty());
    }
    for e in it: entries.into_iter()
        invariant
            it.seq() == all,
            out@.to_multiset() == all.take(it.index() as int).to_multiset(),
            ordered_by_name(out@),
    {
        let mut k: usize = 0;
        while k < out.len() && !text_less(e.name.as_str(), out[k].name.as_str())
            invariant
                k <= out.len(),
                forall|i: int| 0 <= i < k ==> !text_lt(e@.name, #[trigger] out@[i]@.name),
            decreases out.len() - k,
        {
            k = k + 1;
        }
        let ghost before = out@;
        let ghost item = e;
        out.insert(k, e);
        proof {
            assert(out@ == before.insert(k as int, item));
            assert(all.take(it.index() + 1) =~= all.take(it.index() as int).push(item));
            vstd::seq_lib::to_multiset_insert(before, k as int, item);
            vstd::seq_lib::to_multiset_build(all.take(it.index() as int), item);
            assert forall|i: int, j: int| 0 <= i < j < out@.len()
                implies !text_lt(#[trigger] out@[j]@.name, #[trigger] out@[i]@.name) by {
                if j < k {
                    assert(out@[i] == before[i] && out@[j] == before[j]);
                } else if j == k {
                    assert(out@[i] == before[i]);
                } else if i > k {
                    assert(out@[i] == before[i - 1] && out@[j] == before[j - 1]);
                } else if i == k {
                    assert(out@[j] == before[j - 1]);
                    if text_lt(before[j - 1]@.name, item@.name) {
                        lemma_text_lt_total(item@.name, before[k as int]@.name);
                        lemma_text_lt_trans(before[j - 1]@.name, item@.name, before[k as int]@.name);
                    }
                } else {
                    assert(out@[i] == before[i] && out@[j] == before[j - 1]);
                }
            }
        }
    }
    proof {
        assert(all.take(all.len() as int) =~= all);
    }
    out
}

/// Whether no two registrations share a name.
pub open spec fn distinct_names(entries: Seq<CommandEntry>) -> bool {
    forall|i: int, j: int| 0 <= i < entries.len() && 0 <= j < entries.len() && i != j
        ==> #[trigger] entries[i]@.name != #[trigger] entries[j]@.name
}

/// Law: the registry does not depend on the order the registrations were collected
/// in. Two orderings by name of the same registrations, no two sharing a name, are the
/// same sequence; `registry` gives such an ordering, so it gives the same result for
/// any collection order.
pub proof fn the_registry_order_is_fixed(a: Seq<CommandEntry>, b: Seq<CommandEntry>)
    requires
        a.to_multiset() == b.to_multiset(),
        ordered_by_name(a),
        ordered_by_name(b),
        distinct_names(a),
    ensures
        a == b,
    decreases a.len(),
{
    a.to_multiset_ensures();
    b.to_multiset_ensures();
    if a.len() == 0 {
        assert(b.len() == 0);
        assert(a =~= b);
    } else {
        assert(b.len() == a.len());
        let x = a[0];
        let y = b[0];
        assert(a.contains(x));
        assert(a.to_multiset().count(x) > 0);
        assert(b.to_multiset().count(x) > 0);
        assert(b.contains(x));
        let k = choose|k: int| 0 <= k < b.len() && b[k] == x;
        assert(b.contains(y));
        assert(b.to_multiset().count(y) > 0);
        assert(a.to_multiset().count(y) > 0);
        assert(a.contains(y));
        let m = choose|m: int| 0 <= m < a.len() && a[m] == y;
        if k > 0 {
            assert(!text_lt(b[k]@.name, b[0]@.name));
        }
        if m > 0 {
            assert(!text_lt(a[m]@.name, a[0]@.name));
        }
        lemma_text_lt_total(x@.name, y@.name);
        assert(x@.name == y@.name);
        assert(m == 0);
        assert(x == y);
        let a1 = a.drop_first();
        let b1 = b.drop_first();
        assert(a.remove(0) =~= a1);
        assert(b.remove(0) =~= b1);
        vstd::seq_lib::to_multiset_remove(a, 0);
        vstd::seq_lib::to_multiset_remove(b, 0);
        assert(ordered_by_name(a1)) by {
            assert forall|i: int, j: int| 0 <= i < j < a1.len()
                implies !text_lt(#[trigger] a1[j]@.name, #[trigger] a1[i]@.name) by {
                assert(a1[i] == a[i + 1] && a1[j] == a[j + 1]);
            }
        }
        assert(ordered_by_name(b1)) by {
            assert forall|i: int, j: int| 0 <= i < j < b1.len()
                implies !text_lt(#[trigger] b1[j]@.name, #[trigger] b1[i]@.name) by {
                assert(b1[i] == b[i + 1] && b1[j] == b[j + 1]);
            }
        }
        assert(distinct_names(a1)) by {
            assert forall|i: int, j: int| 0 <= i < a1.len() && 0 <= j < a1.len() && i != j
                implies #[trigger] a1[i]@.name != #[trigger] a1[j]@.name by {
                assert(a1[i] == a[i + 1] && a1[j] == a[j + 1]);
            }
        }
        the_registry_order_is_fixed(a1, b1);
        assert(a =~= b) by {
            assert forall|i: int| 0 <= i < a.len() implies a[i] == b[i] by {
                if i > 0 {
                    assert(a[i] == a1[i - 1] && b[i] == b1[i - 1]);
                }
            }
        }
    }
}

/// A name that is not a registered command.
#[derive(Debug)]
pub struct UnknownCommand(pub String);

impl UnknownCommand {
    /// The error's message: "`name` is not a command".
    pub fn message(&self) -> (r: String)
        ensures
            r@ == seq!['`'] + self.0@ + "` is not a command"@,
    {
        let mut s = String::new();
        proof {
            reveal_strlit("`");
        }
        s.append("`");
        s.append(self.0.as_str());
        s.append("` is not a command");
        s
    }
}

/// The registered command named `name`: the first registration of it, or an
/// [`UnknownCommand`] naming it.
pub fn find_command<'a>(registry: &'a Vec<CommandEntry>, name: &str) -> (r: Result<&'a CommandEntry, UnknownCommand>)
    ensures
        match r {
            Ok(e) => exists|i: int| 0 <= i < registry@.len() && registry@[i] == *e
                && e@.name == name@
                && forall|j: int| 0 <= j < i ==> #[trigger] registry@[j]@.name != name@,
            Err(u) => !registered(registry_view(registry@), name@) && u.0@ == name@,
        },
{
    let mut i: usize = 0;
    while i < registry.len()
        invariant
            i <= registry.len(),
            forall|j: int| 0 <= j < i ==> #[trigger] registry@[j]@.name != name@,
        decreases registry.len() - i,
    {
        if same_text(registry[i].name.as_str(), name) {
            return Ok(&registry[i]);
        }
        i = i + 1;
    }
    proof {
        assert forall|j: int| 0 <= j < registry@.len() implies
            #[trigger] registry_view(registry@)[j].name != name@ by {
            assert(registry_view(registry@)[j] == registry@[j]@);
        }
    }
    Err(UnknownCommand(name.to_owned()))
}

/// The commands `/help` offers as a choice: every registered command not hidden from
/// help, in registry order.
pub open spec fn help_choice_view(registry: Seq<EntryView>) -> Seq<EntryView> {
    registry.filter(|e: EntryView| !e.hide_in_help)
}

/// Law: `/help` never offers a command hidden from help, whatever the registry holds,
/// and offers every command that is not hidden.
pub proof fn hidden_commands_are_never_offered(registry: Seq<EntryView>)
    ensures
        forall|i: int| 0 <= i < help_choice_view(registry).len()
            ==> !(#[trigger] help_choice_view(registry)[i]).hide_in_help,
        forall|i: int| 0 <= i < registry.len() && !registry[i].hide_in_help
            ==> #[trigger] help_choice_view(registry).contains(registry[i]),
{
    registry.filter_lemma(|e: EntryView| !e.hide_in_help);
}

/// The commands `/help` offers as a choice, in registry order.
pub fn help_choices(registry: &Vec<CommandEntry>) -> (r: Vec<&CommandEntry>)
    ensures
        r@.map_values(|e: &CommandEntry| e@) == help_choice_view(registry_view(registry@)),
{
    let ghost all = registry_view(registry@);
    let mut out: Vec<&CommandEntry> = Vec::new();
    let mut i: usize = 0;
    proof {
        reveal(Seq::filter);
        assert(all.take(0).filter(|e: EntryView| !e.hide_in_help) =~= Seq::<EntryView>::empty());
        assert(out@.map_values(|e: &CommandEntry| e@) =~= Seq::<EntryView>::empty());
    }
    while i < registry.len()
        invariant
            i <= registry.len(),
            all == registry_view(registry@),
            out@.map_values(|e: &CommandEntry| e@) == all.take(i as int).filter(|e: EntryView| !e.hide_in_help),
        decreases registry.len() - i,
    {
        proof {
            assert(all.take(i + 1).drop_last() =~= all.take(i as int));
            assert(all.take(i + 1).last() == registry@[i as int]@);
            reveal(Seq::filter);
        }
        if !registry[i].hide_in_help {
            let ghost before = out@.map_values(|e: &CommandEntry| e@);
            out.push(&registry[i]);
            proof {
                assert(out@.map_values(|e: &CommandEntry| e@) =~= before.push(registry@[i as int]@));
            }
        }
        i = i + 1;
    }
    proof {
        assert(all.take(i as int) =~= all);
    }
    out
}

/// `a` and `b` equal but for the case of ASCII letters, as `str::eq_ignore_ascii_case`
/// compares them.
pub open spec fn eq_ignore_ascii_case(a: Seq<char>, b: Seq<char>) -> bool {
    a.len() == b.len() && forall|i: int| 0 <= i < a.len() ==> #[trigger] lower_char(a[i]) == lower_char(b[i])
}

/// `c` with an ASCII capital turned lowercase.
pub open spec fn lower_char(c: char) -> char {
    if 'A' <= c <= 'Z' { ((c as int) + 32) as char } else { c }
}

fn lower(c: char) -> (r: char)
    ensures
        r == lower_char(c),
{
    if 'A' <= c && c <= 'Z' {
        ((c as u8) + 32) as char
    } else {
        c
    }
}

/// Whether `a` and `b` are equal but for the case of ASCII letters.
pub fn same_ignoring_ascii_case(a: &str, b: &str) -> (r: bool)
    ensures
        r == eq_ignore_ascii_case(a@, b@),
{
    let x = chars_of(a);
    let y = chars_of(b);
    if x.len() != y.len() {
        return false;
    }
    let mut i: usize = 0;
    while i < x.len()
        invariant
            x@ == a@,
            y@ == b@,
            x.len() == y.len(),
            i <= x.len(),
            forall|j: int| 0 <= j < i ==> #[trigger] lower_char(x@[j]) == lower_char(y@[j]),
        decreases x.len() - i,
    {
        if lower(x[i]) != lower(y[i]) {
            return false;
        }
        i = i + 1;
    }
    true
}

/// The `/help` choice a user typed: the first offered command whose name matches
/// `name` ignoring ASCII case; a command hidden from help is never one.
pub fn choice_from_name<'a>(registry: &'a Vec<CommandEntry>, name: &str) -> (r: Option<&'a CommandEntry>)
    ensures
        match r {
            Some(e) => exists|i: int| 0 <= i < help_choice_view(registry_view(registry@)).len()
                && help_choice_view(registry_view(registry@))[i] == e@
                && eq_ignore_ascii_case(e@.name, name@)
                && forall|j: int| 0 <= j < i ==> !eq_ignore_ascii_case(
                    #[trigger] help_choice_view(registry_view(registry@))[j].name, name@),
            None => forall|j: int| 0 <= j < help_choice_view(registry_view(registry@)).len() ==>
                !eq_ignore_ascii_case(#[trigger] help_choice_view(registry_view(registry@))[j].name, name@),
        },
{
    let choices = help_choices(registry);
    let ghost cv = help_choice_view(registry_view(registry@));
    let mut i: usize = 0;
    while i < choices.len()
        invariant
            i <= choices.len(),
            choices@.map_values(|e: &CommandEntry| e@) == cv,
            cv == help_choice_view(registry_view(registry@)),
            forall|j: int| 0 <= j < i ==> !eq_ignore_ascii_case(#[trigger] cv[j].name, name@),
        decreases choices.len() - i,
    {
        assert(cv[i as int] == choices@[i as int]@);
        if same_ignoring_ascii_case(choices[i].name.as_str(), name) {
            return Some(choices[i]);
        }
        i = i + 1;
    }
    None
}

/// A registered command: a cheap handle to its registration. Two handles are the same
/// command when their names are equal.
#[derive(Clone, Copy)]
pub struct CommandKind<'a>(pub &'a CommandEntry);

impl<'a> CommandKind<'a> {
    /// This command's registration.
    pub fn entry(self) -> (r: &'a CommandEntry)
        ensures
            r == self.0,
    {
        self.0
    }

    /// This command's name.
    pub fn name(self) -> (r: &'a str)
        ensures
            r@ == self.0.name@,
    {
        self.0.name.as_str()
    }

    /// The registered command named exactly `name`.
    pub fn from_str(registry: &'a Vec<CommandEntry>, name: &str) -> (r: Result<CommandKind<'a>, UnknownCommand>)
        ensures
            match r {
                Ok(k) => k.0@.name == name@ && exists|i: int| 0 <= i < registry@.len() && registry@[i] == *k.0,
                Err(u) => !registered(registry_view(registry@), name@) && u.0@ == name@,
            },
    {
        match find_command(registry, name) {
            Ok(e) => Ok(CommandKind(e)),
            Err(u) => Err(u),
        }
    }
}

} // verus!
