//! A command's declaration, checked: the arguments given to the command attribute and
//! the parameters of the command function, turned into the command's registration, or
//! refused with the first thing wrong in them.

use vstd::prelude::*;
use vstd::string::*;
use crate::models::command::{CommandEntry, EntryView, ParamMeta, ParamView};
use crate::models::help::SHORT_DESCRIPTION_LIMIT;
use crate::models::url::youtube_url::opt_view;
use crate::utils::text::{chars_of, decimal, decimal_string, same_text};

verus! {

/// The value an attribute argument was given: a string literal, none (a bare flag), or
/// anything else.
pub enum ArgValue {
    Text(String),
    Flag,
    Other,
}

/// An [`ArgValue`] as values.
pub enum ArgValueView {
    Text(Seq<char>),
    Flag,
    Other,
}

/// One attribute argument: its key and its value.
pub struct DeclArg {
    pub key: String,
    pub value: ArgValue,
}

/// An [`ArgValue`] as values.
pub open spec fn value_view(v: ArgValue) -> ArgValueView {
    match v {
        ArgValue::Text(t) => ArgValueView::Text(t@),
        ArgValue::Flag => ArgValueView::Flag,
        ArgValue::Other => ArgValueView::Other,
    }
}

/// A [`DeclArg`] as values.
pub open spec fn arg_view(a: DeclArg) -> (Seq<char>, ArgValueView) {
    (a.key@, value_view(a.value))
}

/// One parameter of the command function: whether it is `self`, its `#[rename]`, the
/// identifier it binds (none for a pattern), and its `#[description]`.
pub struct ParamDecl {
    pub is_self: bool,
    pub rename: Option<String>,
    pub binding: Option<String>,
    pub description: Option<String>,
}

/// A [`ParamDecl`] as values.
pub struct ParamDeclView {
    pub is_self: bool,
    pub rename: Option<Seq<char>>,
    pub binding: Option<Seq<char>>,
    pub description: Option<Seq<char>>,
}

pub open spec fn param_decl_view(p: ParamDecl) -> ParamDeclView {
    ParamDeclView {
        is_self: p.is_self,
        rename: opt_view(p.rename),
        binding: opt_view(p.binding),
        description: opt_view(p.description),
    }
}

/// Why a declaration is refused.
#[derive(Debug, PartialEq, Eq)]
pub enum DeclError {
    /// An argument the attribute does not read.
    UnknownArgument(String),
    /// The argument with this key is not a string literal.
    NotText(&'static str),
    /// The required argument with this key is missing.
    Missing(&'static str),
    /// The flag with this key was given a value.
    NotFlag(&'static str),
    /// The short description is this many characters, past Discord's limit.
    ShortTooLong(usize),
    /// A parameter is `self`.
    SelfParameter,
    /// A parameter binds a pattern and has no `#[rename]`.
    NeedsRename,
    /// A parameter has no `#[description]`.
    NoDescription,
}

/// A [`DeclError`] as values.
pub enum DeclErrorView {
    UnknownArgument(Seq<char>),
    NotText(Seq<char>),
    Missing(Seq<char>),
    NotFlag(Seq<char>),
    ShortTooLong(nat),
    SelfParameter,
    NeedsRename,
    NoDescription,
}

pub open spec fn decl_error_view(e: DeclError) -> DeclErrorView {
    match e {
        DeclError::UnknownArgument(k) => DeclErrorView::UnknownArgument(k@),
        DeclError::NotText(k) => DeclErrorView::NotText(k@),
        DeclError::Missing(k) => DeclErrorView::Missing(k@),
        DeclError::NotFlag(k) => DeclErrorView::NotFlag(k@),
        DeclError::ShortTooLong(n) => DeclErrorView::ShortTooLong(n as nat),
        DeclError::SelfParameter => DeclErrorView::SelfParameter,
        DeclError::NeedsRename => DeclErrorView::NeedsRename,
        DeclError::NoDescription => DeclErrorView::NoDescription,
    }
}

/// The keys the attribute reads.
pub open spec fn known_key(k: Seq<char>) -> bool {
    k == "short"@ || k == "long"@ || k == "hide_in_help"@
}

/// The key of the first argument the attribute does not read.
pub open spec fn first_unknown(args: Seq<(Seq<char>, ArgValueView)>) -> Option<Seq<char>>
    decreases args.len(),
{
    if args.len() == 0 {
        None
    } else if !known_key(args[0].0) {
        Some(args[0].0)
    } else {
        first_unknown(args.drop_first())
    }
}

/// The value of the first argument with key `key`.
pub open spec fn first_value(args: Seq<(Seq<char>, ArgValueView)>, key: Seq<char>) -> Option<ArgValueView>
    decreases args.len(),
{
    if args.len() == 0 {
        None
    } else if args[0].0 == key {
        Some(args[0].1)
    } else {
        first_value(args.drop_first(), key)
    }
}

/// A required string argument: its text, or why there is none.
pub open spec fn text_arg(args: Seq<(Seq<char>, ArgValueView)>, key: Seq<char>) -> Result<Seq<char>, DeclErrorView> {
    match first_value(args, key) {
        None => Err(DeclErrorView::Missing(key)),
        Some(ArgValueView::Text(t)) => Ok(t),
        Some(_) => Err(DeclErrorView::NotText(key)),
    }
}

/// A flag argument: whether it is there, or why it is malformed.
pub open spec fn flag_arg(args: Seq<(Seq<char>, ArgValueView)>, key: Seq<char>) -> Result<bool, DeclErrorView> {
    match first_value(args, key) {
        None => Ok(false),
        Some(ArgValueView::Flag) => Ok(true),
        Some(_) => Err(DeclErrorView::NotFlag(key)),
    }
}

/// The raw-identifier prefix.
pub open spec fn raw_prefix() -> Seq<char> {
    seq!['r', '#']
}

/// `s` without one leading raw-identifier prefix.
pub open spec fn strip_raw(s: Seq<char>) -> Seq<char> {
    if s.len() >= 2 && s.take(2) == raw_prefix() { s.skip(2) } else { s }
}

/// `s` without any leading raw-identifier prefixes, as `trim_start_matches` leaves it.
pub open spec fn trim_raw(s: Seq<char>) -> Seq<char>
    decreases s.len(),
{
    if s.len() >= 2 && s.take(2) == raw_prefix() { trim_raw(s.skip(2)) } else { s }
}

/// A parameter's name: its `#[rename]`, else the identifier it binds without a raw
/// prefix; none for a pattern without a rename.
pub open spec fn param_name_of(p: ParamDeclView) -> Option<Seq<char>> {
    match p.rename {
        Some(r) => Some(r),
        None => match p.binding {
            Some(b) => Some(strip_raw(b)),
            None => None,
        },
    }
}

/// One parameter's registration, or why it is refused.
pub open spec fn param_of(p: ParamDeclView) -> Result<ParamView, DeclErrorView> {
    if p.is_self {
        Err(DeclErrorView::SelfParameter)
    } else {
        match param_name_of(p) {
            None => Err(DeclErrorView::NeedsRename),
            Some(n) => match p.description {
                None => Err(DeclErrorView::NoDescription),
                Some(d) => Ok(ParamView { name: n, description: d }),
            },
        }
    }
}

/// The registrations of `ps` in order, or the first refusal among them.
pub open spec fn declared_params(ps: Seq<ParamDeclView>) -> Result<Seq<ParamView>, DeclErrorView>
    decreases ps.len(),
{
    if ps.len() == 0 {
        Ok(Seq::empty())
    } else {
        match declared_params(ps.drop_last()) {
            Err(e) => Err(e),
            Ok(done) => match param_of(ps.last()) {
                Ok(p) => Ok(done.push(p)),
                Err(e) => Err(e),
            },
        }
    }
}

/// The parameters after the first, which is the command's context.
pub open spec fn after_context(ps: Seq<ParamDeclView>) -> Seq<ParamDeclView> {
    if ps.len() == 0 { ps } else { ps.drop_first() }
}

/// The registration a declaration makes, or its first fault: an unknown argument; a
/// `short` or `long` that is missing or no string; a `hide_in_help` given a value; a
/// `short` past Discord's limit; then, parameter by parameter after the context, a
/// `self`, a pattern without a rename, or a missing description. The command is named
/// after its function, without raw prefixes.
pub open spec fn declared_entry(args: Seq<(Seq<char>, ArgValueView)>, fn_name: Seq<char>, params: Seq<ParamDeclView>)
    -> Result<EntryView, DeclErrorView>
{
    match first_unknown(args) {
        Some(k) => Err(DeclErrorView::UnknownArgument(k)),
        None => match text_arg(args, "short"@) {
            Err(e) => Err(e),
            Ok(short) => match text_arg(args, "long"@) {
                Err(e) => Err(e),
                Ok(long) => match flag_arg(args, "hide_in_help"@) {
                    Err(e) => Err(e),
                    Ok(hide) => if short.len() > SHORT_DESCRIPTION_LIMIT {
                        Err(DeclErrorView::ShortTooLong(short.len()))
                    } else {
                        match declared_params(after_context(params)) {
                            Err(e) => Err(e),
                            Ok(ps) => Ok(EntryView {
                                name: trim_raw(fn_name),
                                short_description: short,
                                description: long,
                                hide_in_help: hide,
                                parameters: ps,
                            }),
                        }
                    },
                },
            },
        },
    }
}

/// A declaration's outcome as values.
pub open spec fn decl_result_view(r: Result<CommandEntry, DeclError>) -> Result<EntryView, DeclErrorView> {
    match r {
        Ok(e) => Ok(e@),
        Err(e) => Err(decl_error_view(e)),
    }
}

fn first_unknown_key(args: &Vec<DeclArg>) -> (r: Option<String>)
    ensures
        opt_view(r) == first_unknown(args@.map_values(|a: DeclArg| arg_view(a))),
{
    let ghost all = args@.map_values(|a: DeclArg| arg_view(a));
    let mut i: usize = 0;
    proof {
        assert(all.skip(0) =~= all);
    }
    while i < args.len()
        invariant
            i <= args.len(),
            all == args@.map_values(|a: DeclArg| arg_view(a)),
            first_unknown(all) == first_unknown(all.skip(i as int)),
        decreases args.len() - i,
    {
        proof {
            assert(all.skip(i as int).drop_first() =~= all.skip(i + 1));
            assert(all.skip(i as int)[0] == all[i as int]);
        }
        let k = args[i].key.as_str();
        if !(same_text(k, "short") || same_text(k, "long") || same_text(k, "hide_in_help")) {
            return Some(args[i].key.clone());
        }
        i = i + 1;
    }
    proof {
        assert(all.skip(i as int).len() == 0);
    }
    None
}

fn first_arg<'a>(args: &'a Vec<DeclArg>, key: &str) -> (r: Option<&'a ArgValue>)
    ensures
        match r {
            Some(v) => first_value(args@.map_values(|a: DeclArg| arg_view(a)), key@)
                == Some(value_view(*v)),
            None => first_value(args@.map_values(|a: DeclArg| arg_view(a)), key@) is None,
        },
{
    let ghost all = args@.map_values(|a: DeclArg| arg_view(a));
    let mut i: usize = 0;
    proof {
        assert(all.skip(0) =~= all);
    }
    while i < args.len()
        invariant
            i <= args.len(),
            all == args@.map_values(|a: DeclArg| arg_view(a)),
            first_value(all, key@) == first_value(all.skip(i as int), key@),
        decreases args.len() - i,
    {
        proof {
            assert(all.skip(i as int).drop_first() =~= all.skip(i + 1));
            assert(all.skip(i as int)[0] == all[i as int]);
        }
        if same_text(args[i].key.as_str(), key) {
            return Some(&args[i].value);
        }
        i = i + 1;
    }
    proof {
        assert(all.skip(i as int).len() == 0);
    }
    None
}

/// A required string argument's text, or why there is none.
fn text_of_arg(args: &Vec<DeclArg>, key: &'static str) -> (r: Result<String, DeclError>)
    ensures
        match r {
            Ok(t) => text_arg(args@.map_values(|a: DeclArg| arg_view(a)), key@) == Ok::<Seq<char>, DeclErrorView>(t@),
            Err(e) => text_arg(args@.map_values(|a: DeclArg| arg_view(a)), key@) == Err::<Seq<char>, DeclErrorView>(decl_error_view(e)),
        },
{
    match first_arg(args, key) {
        None => Err(DeclError::Missing(key)),
        Some(ArgValue::Text(t)) => Ok(t.clone()),
        Some(_) => Err(DeclError::NotText(key)),
    }
}

/// A flag argument: whether it is there, or why it is malformed.
fn flag_of_arg(args: &Vec<DeclArg>, key: &'static str) -> (r: Result<bool, DeclError>)
    ensures
        match r {
            Ok(b) => flag_arg(args@.map_values(|a: DeclArg| arg_view(a)), key@) == Ok::<bool, DeclErrorView>(b),
            Err(e) => flag_arg(args@.map_values(|a: DeclArg| arg_view(a)), key@) == Err::<bool, DeclErrorView>(decl_error_view(e)),
        },
{
    match first_arg(args, key) {
        None => Ok(false),
        Some(ArgValue::Flag) => Ok(true),
        Some(_) => Err(DeclError::NotFlag(key)),
    }
}

/// Whether `cs` has the raw-identifier prefix at `at`.
fn raw_prefix_at(cs: &Vec<char>, at: usize) -> (r: bool)
    requires
        at <= cs@.len(),
    ensures
        r == (cs@.skip(at as int).len() >= 2 && cs@.skip(at as int).take(2) == raw_prefix()),
        r ==> at + 2 <= cs@.len(),
{
    let r = cs.len() >= 2 && at <= cs.len() - 2 && cs[at] == 'r' && cs[at + 1] == '#';
    proof {
        let rest = cs@.skip(at as int);
        if rest.len() >= 2 {
            if r {
                assert(rest.take(2) =~= raw_prefix());
            } else {
                assert(rest.take(2)[0] == cs@[at as int] && rest.take(2)[1] == cs@[at + 1]);
            }
        }
    }
    r
}

/// The text of `s` from its character `at` on.
fn text_from(s: &str, at: usize) -> (r: String)
    requires
        at <= s@.len(),
    ensures
        r@ == s@.skip(at as int),
{
    let n = s.unicode_len();
    let r = s.substring_char(at, n).to_owned();
    proof {
        assert(s@.subrange(at as int, n as int) =~= s@.skip(at as int));
    }
    r
}

/// `s` without any leading raw-identifier prefixes.
fn trim_raw_text(s: &str) -> (r: String)
    ensures
        r@ == trim_raw(s@),
{
    let cs = chars_of(s);
    let mut at: usize = 0;
    proof {
        assert(cs@.skip(0) =~= cs@);
    }
    while raw_prefix_at(&cs, at)
        invariant
            at <= cs@.len(),
            trim_raw(s@) == trim_raw(cs@.skip(at as int)),
            cs@ == s@,
        decreases cs@.len() - at,
    {
        proof {
            assert(cs@.skip(at as int).len() == cs@.len() - at);
            assert(cs@.skip(at as int).skip(2) =~= cs@.skip(at + 2));
        }
        let n = cs.len();
        assert(at + 2 <= n);
        at = at + 2;
    }
    text_from(s, at)
}

/// `s` without one leading raw-identifier prefix.
fn strip_raw_text(s: &str) -> (r: String)
    ensures
        r@ == strip_raw(s@),
{
    let cs = chars_of(s);
    proof {
        assert(cs@.skip(0) =~= cs@);
    }
    if raw_prefix_at(&cs, 0) {
        text_from(s, 2)
    } else {
        text_from(s, 0)
    }
}

/// One parameter's registration, or why it is refused.
fn param_meta(p: &ParamDecl) -> (r: Result<ParamMeta, DeclError>)
    ensures
        match r {
            Ok(m) => param_of(param_decl_view(*p)) == Ok::<ParamView, DeclErrorView>(m@),
            Err(e) => param_of(param_decl_view(*p)) == Err::<ParamView, DeclErrorView>(decl_error_view(e)),
        },
{
    if p.is_self {
        return Err(DeclError::SelfParameter);
    }
    let name = match &p.rename {
        Some(r) => r.clone(),
        None => match &p.binding {
            Some(b) => strip_raw_text(b.as_str()),
            None => {
                return Err(DeclError::NeedsRename);
            },
        },
    };
    match &p.description {
        None => Err(DeclError::NoDescription),
        Some(d) => Ok(ParamMeta { name, description: d.clone() }),
    }
}

/// The registration the attribute makes of a command function named `fn_name` with
/// parameters `params`, given the attribute arguments `args`; or the first fault in
/// them.
pub fn declare_command(args: &Vec<DeclArg>, fn_name: &str, params: &Vec<ParamDecl>) -> (r: Result<CommandEntry, DeclError>)
    ensures
        decl_result_view(r) == declared_entry(
            args@.map_values(|a: DeclArg| arg_view(a)),
            fn_name@,
            params@.map_values(|p: ParamDecl| param_decl_view(p)),
        ),
{
    let ghost av = args@.map_values(|a: DeclArg| arg_view(a));
    let ghost pv = params@.map_values(|p: ParamDecl| param_decl_view(p));
    match first_unknown_key(args) {
        Some(k) => {
            return Err(DeclError::UnknownArgument(k));
        },
        None => {},
    }
    let short = match text_of_arg(args, "short") {
        Ok(t) => t,
        Err(e) => {
            return Err(e);
        },
    };
    let long = match text_of_arg(args, "long") {
        Ok(t) => t,
        Err(e) => {
            return Err(e);
        },
    };
    let hide = match flag_of_arg(args, "hide_in_help") {
        Ok(b) => b,
        Err(e) => {
            return Err(e);
        },
    };
    let short_len = short.as_str().unicode_len();
    if short_len > SHORT_DESCRIPTION_LIMIT {
        return Err(DeclError::ShortTooLong(short_len));
    }
    let ghost rest = after_context(pv);
    let ghost outcome = match declared_params(rest) {
        Err(e) => Err(e),
        Ok(ps) => Ok(EntryView {
            name: trim_raw(fn_name@),
            short_description: short@,
            description: long@,
            hide_in_help: hide,
            parameters: ps,
        }),
    };
    assert(declared_entry(av, fn_name@, pv) == outcome);
    let mut metas: Vec<ParamMeta> = Vec::new();
    let mut i: usize = 1;
    proof {
        if pv.len() > 0 {
            assert(rest.take(0) =~= Seq::<ParamDeclView>::empty());
        } else {
            assert(rest =~= Seq::<ParamDeclView>::empty());
        }
        assert(metas@.map_values(|m: ParamMeta| m@) =~= Seq::<ParamView>::empty());
    }
    while i < params.len()
        invariant
            1 <= i,
            i <= params.len() || params.len() == 0,
            pv == params@.map_values(|p: ParamDecl| param_decl_view(p)),
            rest == after_context(pv),
            declared_entry(av, fn_name@, pv) == outcome,
            outcome == match declared_params(rest) {
                Err(e) => Err(e),
                Ok(ps) => Ok(EntryView {
                    name: trim_raw(fn_name@),
                    short_description: short@,
                    description: long@,
                    hide_in_help: hide,
                    parameters: ps,
                }),
            },
            av == args@.map_values(|a: DeclArg| arg_view(a)),
            params.len() > 0 ==> declared_params(rest.take(i - 1))
                == Ok::<Seq<ParamView>, DeclErrorView>(metas@.map_values(|m: ParamMeta| m@)),
            params.len() == 0 ==> metas@.len() == 0,
        decreases params.len() - i,
    {
        proof {
            assert(rest.take(i as int).drop_last() =~= rest.take(i - 1));
            assert(rest.take(i as int).last() == pv[i as int]);
            assert(pv[i as int] == param_decl_view(params@[i as int]));
        }
        match param_meta(&params[i]) {
            Ok(m) => {
                let ghost before = metas@.map_values(|x: ParamMeta| x@);
                metas.push(m);
                proof {
                    assert(metas@.map_values(|x: ParamMeta| x@) =~= before.push(m@));
                }
            },
            Err(e) => {
                proof {
                    assert(declared_params(rest.take(i as int)) == Err::<Seq<ParamView>, DeclErrorView>(decl_error_view(e)));
                    lemma_declared_error_sticks(rest, i as int);
                }
                return Err(e);
            },
        }
        i = i + 1;
    }
    proof {
        if params.len() > 0 {
            assert(rest.take(i - 1) =~= rest);
        } else {
            assert(rest.len() == 0);
            assert(metas@.map_values(|m: ParamMeta| m@) =~= Seq::<ParamView>::empty());
        }
        assert(declared_params(rest) == Ok::<Seq<ParamView>, DeclErrorView>(metas@.map_values(|m: ParamMeta| m@)));
    }
    let name = trim_raw_text(fn_name);
    let entry = CommandEntry { name, short_description: short, description: long, hide_in_help: hide, parameters: metas };
    proof {
        assert(entry@.parameters == metas@.map_values(|m: ParamMeta| m@));
    }
    Ok(entry)
}

proof fn lemma_declared_error_sticks(ps: Seq<ParamDeclView>, k: int)
    requires
        0 <= k <= ps.len(),
        declared_params(ps.take(k)) is Err,
    ensures
        declared_params(ps) == declared_params(ps.take(k)),
    decreases ps.len() - k,
{
    if k < ps.len() {
        assert(ps.take(k + 1).drop_last() =~= ps.take(k));
        lemma_declared_error_sticks(ps, k + 1);
    } else {
        assert(ps.take(k) =~= ps);
    }
}

/// The message a refusal is reported with.
pub open spec fn decl_message(e: DeclErrorView) -> Seq<char> {
    match e {
        DeclErrorView::UnknownArgument(_) =>
            "unknown #[turto_command] argument, expected one of [\"short\", \"long\", \"hide_in_help\"]"@,
        DeclErrorView::NotText(k) => "`"@ + k + "` must be a string literal, `"@ + k + " = \"...\"`"@,
        DeclErrorView::Missing(k) => "#[turto_command] requires a string `"@ + k + " = \"...\"` argument"@,
        DeclErrorView::NotFlag(k) => "`"@ + k + "` is a flag, write it as a bare `"@ + k + "` with no value"@,
        DeclErrorView::ShortTooLong(n) => "`short` is "@ + decimal(n) + " characters, but Discord allows at most "@
            + decimal(SHORT_DESCRIPTION_LIMIT as nat) + " for a slash command description"@,
        DeclErrorView::SelfParameter => "unexpected `self` parameter"@,
        DeclErrorView::NeedsRename => "pattern parameters require an explicit `#[rename = \"...\"]`"@,
        DeclErrorView::NoDescription => "every parameter must have a `#[description = \"...\"]` for #[turto_command]"@,
    }
}

impl DeclError {
    /// The refusal's message.
    pub fn message(&self) -> (r: String)
        ensures
            r@ == decl_message(decl_error_view(*self)),
    {
        match self {
            DeclError::UnknownArgument(_) =>
                "unknown #[turto_command] argument, expected one of [\"short\", \"long\", \"hide_in_help\"]".to_owned(),
            DeclError::NotText(k) => {
                let mut s = "`".to_owned();
                s.append(k);
                s.append("` must be a string literal, `");
                s.append(k);
                s.append(" = \"...\"`");
                s
            },
            DeclError::Missing(k) => {
                let mut s = "#[turto_command] requires a string `".to_owned();
                s.append(k);
                s.append(" = \"...\"` argument");
                s
            },
            DeclError::NotFlag(k) => {
                let mut s = "`".to_owned();
                s.append(k);
                s.append("` is a flag, write it as a bare `");
                s.append(k);
                s.append("` with no value");
                s
            },
            DeclError::ShortTooLong(n) => {
                let mut s = "`short` is ".to_owned();
                let d = decimal_string(*n as u64);
                s.append(d.as_str());
                s.append(" characters, but Discord allows at most ");
                let limit = decimal_string(SHORT_DESCRIPTION_LIMIT as u64);
                s.append(limit.as_str());
                s.append(" for a slash command description");
                s
            },
            DeclError::SelfParameter => "unexpected `self` parameter".to_owned(),
            DeclError::NeedsRename => "pattern parameters require an explicit `#[rename = \"...\"]`".to_owned(),
            DeclError::NoDescription =>
                "every parameter must have a `#[description = \"...\"]` for #[turto_command]".to_owned(),
        }
    }
}

} // verus!
