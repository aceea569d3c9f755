//! Message templates: text with `{name}` placeholders, filled in per message.

use vstd::prelude::*;
use vstd::string::*;

verus! {

/// One piece of a parsed template, as a value.
pub enum Piece {
    Text(Seq<char>),
    Arg(Seq<char>),
}

/// One piece of a parsed template: literal text, or the name of an argument.
#[derive(Debug, PartialEq, Eq)]
pub enum Token {
    Text(String),
    Arg(String),
}

impl View for Token {
    type V = Piece;

    open spec fn view(&self) -> Piece {
        match self {
            Token::Text(s) => Piece::Text(s@),
            Token::Arg(s) => Piece::Arg(s@),
        }
    }
}

/// The state of the left-to-right scan that parses a template, after its first `i`
/// characters: where the pending text starts, the position of the `{` that is still
/// open (if any), and the pieces emitted so far.
pub open spec fn scan(s: Seq<char>, i: nat) -> (int, Option<int>, Seq<Piece>)
    decreases i,
{
    if i == 0 {
        (0, None, Seq::empty())
    } else {
        let (start, open, pieces) = scan(s, (i - 1) as nat);
        let c = s[i - 1];
        if c == '{' {
            (start, Some(i - 1), pieces)
        } else if c == '}' && open is Some {
            let left = open->0;
            (
                i as int,
                None,
                pieces + seq![Piece::Text(s.subrange(start, left)), Piece::Arg(s.subrange(left + 1, i - 1))],
            )
        } else {
            (start, open, pieces)
        }
    }
}

/// The pieces of a template: every `}` that follows an unclosed `{` closes the
/// placeholder opened by the *last* such `{`; the text before it, back to the end of
/// the previous placeholder, is literal. Unmatched braces stay in the text.
pub open spec fn parse_pieces(s: Seq<char>) -> Seq<Piece> {
    let (start, _, pieces) = scan(s, s.len());
    pieces.push(Piece::Text(s.subrange(start, s.len() as int)))
}

/// The text a piece stands for in its template.
pub open spec fn piece_source(p: Piece) -> Seq<char> {
    match p {
        Piece::Text(t) => t,
        Piece::Arg(a) => seq!['{'] + a + seq!['}'],
    }
}

/// The template text that a sequence of pieces was parsed from.
pub open spec fn unparse(ps: Seq<Piece>) -> Seq<char>
    decreases ps.len(),
{
    if ps.len() == 0 {
        Seq::empty()
    } else {
        unparse(ps.drop_last()) + piece_source(ps.last())
    }
}

/// The rendering of a sequence of pieces: text as it is, each argument replaced by its
/// value in `args`, and by nothing when `args` has none.
pub open spec fn render_pieces(ps: Seq<Piece>, args: Map<Seq<char>, Seq<char>>) -> Seq<char>
    decreases ps.len(),
{
    if ps.len() == 0 {
        Seq::empty()
    } else {
        render_pieces(ps.drop_last(), args) + match ps.last() {
            Piece::Text(t) => t,
            Piece::Arg(a) => if args.contains_key(a) { args[a] } else { Seq::empty() },
        }
    }
}

/// No character of `s` is a brace.
pub open spec fn brace_free(s: Seq<char>) -> bool {
    forall|k: int| 0 <= k < s.len() ==> s[k] != '{' && s[k] != '}'
}

/// Pieces that alternate text and placeholder, beginning and ending with text, where
/// no placeholder name holds a brace.
pub open spec fn well_shaped(ps: Seq<Piece>) -> bool {
    &&& ps.len() % 2 == 1
    &&& forall|i: int| 0 <= i < ps.len() && i % 2 == 0 ==> #[trigger] ps[i] is Text
    &&& forall|i: int| 0 <= i < ps.len() && i % 2 == 1 ==> (#[trigger] ps[i] is Arg && brace_free(ps[i]->Arg_0))
}

proof fn lemma_unparse_push(ps: Seq<Piece>, p: Piece)
    ensures
        unparse(ps.push(p)) == unparse(ps) + piece_source(p),
{
    assert(ps.push(p).drop_last() =~= ps);
}

/// What holds of the scan after `i` characters.
proof fn lemma_scan(s: Seq<char>, i: nat)
    requires
        i <= s.len(),
    ensures
        ({
            let (start, open, pieces) = scan(s, i);
            &&& 0 <= start <= i
            &&& unparse(pieces) == s.subrange(0, start)
            &&& pieces.len() % 2 == 0
            &&& forall|j: int| 0 <= j < pieces.len() && j % 2 == 0 ==> #[trigger] pieces[j] is Text
            &&& forall|j: int| 0 <= j < pieces.len() && j % 2 == 1 ==> (#[trigger] pieces[j] is Arg && brace_free(pieces[j]->Arg_0))
            &&& open matches Some(o) ==> {
                &&& start <= o < i
                &&& s[o] == '{'
                &&& brace_free(s.subrange(o + 1, i as int))
            }
        }),
    decreases i,
{
    if i > 0 {
        lemma_scan(s, (i - 1) as nat);
        let (start, open, pieces) = scan(s, (i - 1) as nat);
        let c = s[i - 1];
        if c == '{' {
            assert(s.subrange(i as int, i as int) =~= Seq::<char>::empty());
        } else if c == '}' && open is Some {
            let o = open->0;
            let text = Piece::Text(s.subrange(start, o));
            let arg = Piece::Arg(s.subrange(o + 1, i - 1));
            lemma_unparse_push(pieces, text);
            lemma_unparse_push(pieces.push(text), arg);
            assert(pieces + seq![text, arg] =~= pieces.push(text).push(arg));
            assert(s.subrange(o + 1, i - 1) =~= s.subrange(o + 1, (i - 1) as int));
            assert(s.subrange(0, i as int) =~= s.subrange(0, start) + s.subrange(start, o)
                + (seq!['{'] + s.subrange(o + 1, i - 1) + seq!['}']));
            let np = pieces + seq![text, arg];
            assert forall|j: int| 0 <= j < np.len() && j % 2 == 1 implies (#[trigger] np[j] is Arg && brace_free(np[j]->Arg_0)) by {
                if j < pieces.len() {
                    assert(np[j] == pieces[j]);
                }
            }
            assert forall|j: int| 0 <= j < np.len() && j % 2 == 0 implies #[trigger] np[j] is Text by {
                if j < pieces.len() {
                    assert(np[j] == pieces[j]);
                }
            }
        } else {
            if let Some(o) = open {
                let prev = s.subrange(o + 1, i - 1);
                let cur = s.subrange(o + 1, i as int);
                assert(cur =~= prev.push(c));
                assert forall|k: int| 0 <= k < cur.len() implies #[trigger] cur[k] != '{' && cur[k] != '}' by {
                    if k < prev.len() {
                        assert(cur[k] == prev[k]);
                    }
                }
            }
        }
    }
}

/// Parsing loses nothing: writing every placeholder back between braces and joining the
/// pieces in order gives back the template text exactly.
pub proof fn template_parse_round_trip(s: Seq<char>)
    ensures
        unparse(parse_pieces(s)) == s,
{
    lemma_scan(s, s.len());
    let (start, _, pieces) = scan(s, s.len());
    lemma_unparse_push(pieces, Piece::Text(s.subrange(start, s.len() as int)));
    assert(s.subrange(0, start) + s.subrange(start, s.len() as int) =~= s);
}

/// The text pieces of `ps` joined in order, the placeholders left out.
pub open spec fn text_of(ps: Seq<Piece>) -> Seq<char>
    decreases ps.len(),
{
    if ps.len() == 0 {
        Seq::empty()
    } else {
        text_of(ps.drop_last()) + match ps.last() {
            Piece::Text(t) => t,
            Piece::Arg(_) => Seq::empty(),
        }
    }
}

/// Law: with no argument set, rendering fills every placeholder with nothing, so the
/// output is the template's text pieces joined in order.
pub proof fn an_unfilled_template_renders_its_text(ps: Seq<Piece>)
    ensures
        render_pieces(ps, Map::empty()) == text_of(ps),
    decreases ps.len(),
{
    if ps.len() > 0 {
        an_unfilled_template_renders_its_text(ps.drop_last());
    }
}

proof fn lemma_scan_without_close(s: Seq<char>, i: nat)
    requires
        i <= s.len(),
        forall|k: int| 0 <= k < s.len() ==> s[k] != '}',
    ensures
        scan(s, i).0 == 0,
        scan(s, i).2 == Seq::<Piece>::empty(),
    decreases i,
{
    if i > 0 {
        lemma_scan_without_close(s, (i - 1) as nat);
    }
}

/// Law: a template with no `}` is all text: it parses to one text piece, the whole
/// template, and with no argument set it renders as itself.
pub proof fn a_template_without_closing_braces_renders_as_itself(s: Seq<char>)
    requires
        forall|k: int| 0 <= k < s.len() ==> s[k] != '}',
    ensures
        parse_pieces(s) == seq![Piece::Text(s)],
        render_pieces(parse_pieces(s), Map::empty()) == s,
{
    lemma_scan_without_close(s, s.len());
    assert(s.subrange(0, s.len() as int) =~= s);
    assert(parse_pieces(s) =~= seq![Piece::Text(s)]);
    let ps = seq![Piece::Text(s)];
    assert(ps.drop_last() =~= Seq::<Piece>::empty());
    assert(ps.last() == Piece::Text(s));
    assert(render_pieces(ps.drop_last(), Map::empty()) == Seq::<char>::empty());
    assert(render_pieces(ps, Map::empty()) =~= s);
}

/// A parsed template alternates text and placeholders, beginning and ending with text,
/// and no placeholder name contains a brace.
pub proof fn template_pieces_alternate(s: Seq<char>)
    ensures
        well_shaped(parse_pieces(s)),
{
    lemma_scan(s, s.len());
    let (start, _, pieces) = scan(s, s.len());
    let ps = parse_pieces(s);
    assert forall|j: int| 0 <= j < ps.len() && j % 2 == 0 implies #[trigger] ps[j] is Text by {
        if j < pieces.len() {
            assert(ps[j] == pieces[j]);
        }
    }
    assert forall|j: int| 0 <= j < ps.len() && j % 2 == 1 implies (#[trigger] ps[j] is Arg && brace_free(ps[j]->Arg_0)) by {
        assert(ps[j] == pieces[j]);
    }
}

/// A parsed message template.
#[derive(Debug, PartialEq, Eq)]
pub struct Template {
    length: usize,
    tokens: Vec<Token>,
}

impl Template {
    /// The pieces of this template, as values.
    pub closed spec fn pieces(&self) -> Seq<Piece> {
        self.tokens@.map_values(|t: Token| t@)
    }

    /// The byte length of the text this template was parsed from.
    pub closed spec fn source_len(&self) -> nat {
        self.length as nat
    }

    /// Split `template` into text and `{name}` placeholders.
    pub fn parse(template: &str) -> (t: Template)
        ensures
            t.pieces() == parse_pieces(template@),
            t.source_len() == template.len() as nat,
    {
        let n = template.unicode_len();
        let mut start: usize = 0;
        let mut last_left: usize = 0;
        let mut has_left = false;
        let mut pos: usize = 0;
        let mut tokens: Vec<Token> = Vec::new();
        let ghost s = template@;
        for c in it: template.chars()
            invariant
                s == template@,
                n == s.len(),
                it.seq() == s,
                pos == it.index(),
                start <= pos <= n,
                has_left ==> last_left < pos,
                has_left ==> start <= last_left,
                scan(s, pos as nat) == (
                    start as int,
                    if has_left { Some(last_left as int) } else { None::<int> },
                    tokens@.map_values(|t: Token| t@),
                ),
        {
            assert(s[pos as int] == c);
            if c == '{' {
                last_left = pos;
                has_left = true;
            } else if c == '}' {
                if has_left {
                    let text = template.substring_char(start, last_left).to_owned();
                    let arg = template.substring_char(last_left + 1, pos).to_owned();
                    let ghost before = tokens@;
                    tokens.push(Token::Text(text));
                    tokens.push(Token::Arg(arg));
                    proof {
                        assert(tokens@.map_values(|t: Token| t@) =~= before.map_values(|t: Token| t@)
                            + seq![Piece::Text(s.subrange(start as int, last_left as int)),
                                   Piece::Arg(s.subrange(last_left + 1, pos as int))]);
                    }
                    start = pos + 1;
                    has_left = false;
                }
            }
            pos = pos + 1;
        }
        let remainder = template.substring_char(start, n).to_owned();
        let ghost before = tokens@;
        tokens.push(Token::Text(remainder));
        proof {
            assert(tokens@.map_values(|t: Token| t@) =~= before.map_values(|t: Token| t@)
                .push(Piece::Text(s.subrange(start as int, s.len() as int))));
        }
        Template { length: template.len(), tokens }
    }


    /// The byte length of the text this template was parsed from.
    pub fn length(&self) -> (n: usize)
        ensures
            n as nat == self.source_len(),
    {
        self.length
    }

    /// The pieces of this template, in order.
    pub fn tokens(&self) -> (ts: &Vec<Token>)
        ensures
            ts@.map_values(|t: Token| t@) == self.pieces(),
    {
        &self.tokens
    }

    /// A renderer for this template with no arguments set yet.
    pub fn renderer(&self) -> (r: TemplateRenderer<'_>)
        ensures
            r.pieces() == self.pieces(),
            r.arguments() == Map::<Seq<char>, Seq<char>>::empty(),
    {
        TemplateRenderer { template: self, args: Vec::new() }
    }
}

/// The argument map that a list of assignments leaves behind, later ones winning.
pub open spec fn assigned(args: Seq<(Seq<char>, Seq<char>)>) -> Map<Seq<char>, Seq<char>>
    decreases args.len(),
{
    if args.len() == 0 {
        Map::empty()
    } else {
        assigned(args.drop_last()).insert(args.last().0, args.last().1)
    }
}

proof fn lemma_assigned_last(s: Seq<(Seq<char>, Seq<char>)>, i: int, k: Seq<char>)
    requires
        0 <= i < s.len(),
        s[i].0 == k,
        forall|j: int| i < j < s.len() ==> s[j].0 != k,
    ensures
        assigned(s).contains_key(k),
        assigned(s)[k] == s[i].1,
    decreases s.len(),
{
    if i < s.len() - 1 {
        lemma_assigned_last(s.drop_last(), i, k);
    }
}

proof fn lemma_assigned_absent(s: Seq<(Seq<char>, Seq<char>)>, k: Seq<char>)
    requires
        forall|j: int| 0 <= j < s.len() ==> s[j].0 != k,
    ensures
        !assigned(s).contains_key(k),
    decreases s.len(),
{
    if s.len() > 0 {
        lemma_assigned_absent(s.drop_last(), k);
    }
}

/// A template with the arguments to fill it with.
pub struct TemplateRenderer<'a> {
    template: &'a Template,
    args: Vec<(String, &'a str)>,
}

impl<'a> TemplateRenderer<'a> {
    /// The pieces of the template being rendered.
    pub closed spec fn pieces(&self) -> Seq<Piece> {
        self.template.pieces()
    }

    /// The assignments made so far, in order.
    closed spec fn assignments(&self) -> Seq<(Seq<char>, Seq<char>)> {
        self.args@.map_values(|a: (String, &'a str)| (a.0@, a.1@))
    }

    /// The value of each argument set so far.
    pub closed spec fn arguments(&self) -> Map<Seq<char>, Seq<char>> {
        assigned(self.assignments())
    }

    /// The value set for `name`, the latest assignment winning.
    fn lookup(&self, name: &String) -> (v: Option<&'a str>)
        ensures
            match v {
                Some(v) => self.arguments().contains_key(name@) && self.arguments()[name@] == v@,
                None => !self.arguments().contains_key(name@),
            },
    {
        let mut i = self.args.len();
        while i > 0
            invariant
                i <= self.args.len(),
                forall|j: int| i <= j < self.args.len() ==> self.assignments()[j].0 != name@,
            decreases i,
        {
            i = i - 1;
            if self.args[i].0 == *name {
                proof { lemma_assigned_last(self.assignments(), i as int, name@); }
                return Some(self.args[i].1);
            }
        }
        proof { lemma_assigned_absent(self.assignments(), name@); }
        None
    }

    /// Fill in the template: its text as written, and every placeholder replaced by
    /// the value set for it, or by nothing when none was set.
    pub fn render(&self) -> (s: String)
        ensures
            s@ == render_pieces(self.pieces(), self.arguments()),
    {
        let tokens = &self.template.tokens;
        let mut res = String::new();
        let mut i: usize = 0;
        while i < tokens.len()
            invariant
                tokens@.map_values(|t: Token| t@) == self.pieces(),
                i <= tokens.len(),
                res@ == render_pieces(self.pieces().take(i as int), self.arguments()),
            decreases tokens.len() - i,
        {
            proof {
                assert(self.pieces().take(i + 1).drop_last() =~= self.pieces().take(i as int));
                assert(self.pieces()[i as int] == tokens@[i as int]@);
            }
            match &tokens[i] {
                Token::Text(text) => res.append(text.as_str()),
                Token::Arg(name) => {
                    if let Some(value) = self.lookup(name) {
                        res.append(value);
                    }
                },
            }
            i = i + 1;
        }
        proof {
            assert(self.pieces().take(tokens.len() as int) =~= self.pieces());
        }
        res
    }

    /// Set the value of the argument `key`, replacing any earlier one.
    pub fn add_arg(&mut self, key: &'a str, value: &'a str) -> (r: &mut Self)
        ensures
            r.pieces() == old(self).pieces(),
            r.arguments() == old(self).arguments().insert(key@, value@),
            *final(self) == *final(r),
    {
        let ghost before = self.assignments();
        self.args.push((key.to_owned(), value));
        proof {
            assert(self.assignments().drop_last() =~= before);
        }
        self
    }
}

} // verus!
