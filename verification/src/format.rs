//! Display templates: literal text with named placeholders in braces, parsed
//! once and rendered against a mapping from placeholder name to value.

use crate::text::str_equal;
use vstd::prelude::*;

verus! {

/// One segment of a template.
#[derive(Clone, Debug)]
pub enum Token {
    /// Text that is rendered as it stands.
    Text(String),
    /// A placeholder, by its name without the braces.
    Var(String),
}

/// Mathematical value of a [`Token`].
pub ghost enum TokenModel {
    Text(Seq<char>),
    Var(Seq<char>),
}

impl DeepView for Token {
    type V = TokenModel;

    open spec fn deep_view(&self) -> TokenModel {
        match self {
            Token::Text(s) => TokenModel::Text(s@),
            Token::Var(s) => TokenModel::Var(s@),
        }
    }
}

/// The characters that a token takes up in a template.
pub open spec fn token_source(token: TokenModel) -> Seq<char> {
    match token {
        TokenModel::Text(s) => s,
        TokenModel::Var(name) => seq!['{'] + name + seq!['}'],
    }
}

/// The template text that a sequence of tokens stands for.
pub open spec fn source_of(tokens: Seq<TokenModel>) -> Seq<char>
    decreases tokens.len(),
{
    if tokens.len() == 0 {
        Seq::empty()
    } else {
        source_of(tokens.drop_last()) + token_source(tokens.last())
    }
}

/// A literal is not empty and holds no opening brace; a placeholder name
/// holds no closing brace.
pub open spec fn token_canonical(token: TokenModel) -> bool {
    match token {
        TokenModel::Text(s) => s.len() > 0 && !s.contains('{'),
        TokenModel::Var(name) => !name.contains('}'),
    }
}

/// Every token is canonical and no literal follows a literal, so that a
/// template text has at most one canonical sequence of tokens.
pub open spec fn canonical(tokens: Seq<TokenModel>) -> bool {
    &&& forall|i: int| 0 <= i < tokens.len() ==> token_canonical(#[trigger] tokens[i])
    &&& forall|i: int|
        0 <= i < tokens.len() - 1 ==> !(#[trigger] tokens[i] is Text && tokens[i + 1] is Text)
}

/// Some closing brace stands after position `p` of `s`.
pub open spec fn closed_after(s: Seq<char>, p: int) -> bool {
    exists|q: int| p < q < s.len() && s[q] == '}'
}

/// Position `p` of `s` holds an opening brace that no closing brace follows.
pub open spec fn dangling_at(s: Seq<char>, p: int) -> bool {
    0 <= p < s.len() && s[p] == '{' && !closed_after(s, p)
}

/// Some placeholder of `s` is not terminated.
pub open spec fn unterminated(s: Seq<char>) -> bool {
    exists|p: int| dangling_at(s, p)
}

/// The values of the placeholders after rendering, or `None` where a
/// placeholder has no value in `values`.
pub open spec fn render_spec(tokens: Seq<TokenModel>, values: Map<Seq<char>, Seq<char>>) -> Option<
    Seq<char>,
>
    decreases tokens.len(),
{
    if tokens.len() == 0 {
        Some(Seq::empty())
    } else {
        match render_spec(tokens.drop_last(), values) {
            None => None,
            Some(head) => match tokens.last() {
                TokenModel::Text(s) => Some(head + s),
                TokenModel::Var(name) => if values.dom().contains(name) {
                    Some(head + values[name])
                } else {
                    None
                },
            },
        }
    }
}

/// The name of the first placeholder of `tokens` without a value in `values`.
pub open spec fn first_undefined(tokens: Seq<TokenModel>, values: Map<Seq<char>, Seq<char>>) -> Option<
    Seq<char>,
>
    decreases tokens.len(),
{
    if tokens.len() == 0 {
        None
    } else {
        match first_undefined(tokens.drop_last(), values) {
            Some(name) => Some(name),
            None => match tokens.last() {
                TokenModel::Var(name) if !values.dom().contains(name) => Some(name),
                _ => None,
            },
        }
    }
}

/// The map that a list of pairs stands for: a later pair replaces an earlier
/// one with the same name.
pub open spec fn map_of(pairs: Seq<(Seq<char>, Seq<char>)>) -> Map<Seq<char>, Seq<char>>
    decreases pairs.len(),
{
    if pairs.len() == 0 {
        Map::empty()
    } else {
        map_of(pairs.drop_last()).insert(pairs.last().0, pairs.last().1)
    }
}

/// A mapping from placeholder name to value.
#[derive(Clone, Debug)]
pub struct Values {
    pairs: Vec<(String, String)>,
}

impl View for Values {
    type V = Map<Seq<char>, Seq<char>>;

    closed spec fn view(&self) -> Map<Seq<char>, Seq<char>> {
        map_of(self.pairs.deep_view())
    }
}

impl Values {
    /// The mapping without any name.
    pub fn new() -> (r: Values)
        ensures
            r@ == Map::<Seq<char>, Seq<char>>::empty(),
    {
        let r = Values { pairs: Vec::new() };
        r
    }

    /// Gives `name` the value `value`, in place of any value it had.
    pub fn insert(&mut self, name: String, value: String)
        ensures
            final(self)@ == old(self)@.insert(name@, value@),
    {
        self.pairs.push((name, value));
        proof {
            let before = old(self).pairs.deep_view();
            let after = self.pairs.deep_view();
            assert(after.drop_last() =~= before);
        }
    }

    /// The value of `name`, if it has one.
    pub fn get(&self, name: &str) -> (r: Option<&String>)
        ensures
            match r {
                Some(value) => self@.dom().contains(name@) && self@[name@] == value@,
                None => !self@.dom().contains(name@),
            },
    {
        let mut i: usize = self.pairs.len();
        while i > 0
            invariant
                i <= self.pairs.len(),
                forall|j: int| i <= j < self.pairs.len() ==> self.pairs[j].0@ != name@,
            decreases i,
        {
            i -= 1;
            if str_equal(self.pairs[i].0.as_str(), name) {
                proof {
                    lemma_map_of_last_match(self.pairs.deep_view(), name@, i as int);
                }
                return Some(&self.pairs[i].1);
            }
        }
        proof {
            lemma_map_of_no_match(self.pairs.deep_view(), name@);
        }
        None
    }
}

/// Where pair `i` is the last one named `name`, the map gives its value.
pub proof fn lemma_map_of_last_match(pairs: Seq<(Seq<char>, Seq<char>)>, name: Seq<char>, i: int)
    requires
        0 <= i < pairs.len(),
        pairs[i].0 == name,
        forall|j: int| i < j < pairs.len() ==> pairs[j].0 != name,
    ensures
        map_of(pairs).dom().contains(name),
        map_of(pairs)[name] == pairs[i].1,
    decreases pairs.len(),
{
    if i < pairs.len() - 1 {
        lemma_map_of_last_match(pairs.drop_last(), name, i);
    }
}

/// Where no pair is named `name`, the map has no value for it.
pub proof fn lemma_map_of_no_match(pairs: Seq<(Seq<char>, Seq<char>)>, name: Seq<char>)
    requires
        forall|j: int| 0 <= j < pairs.len() ==> pairs[j].0 != name,
    ensures
        !map_of(pairs).dom().contains(name),
    decreases pairs.len(),
{
    if pairs.len() > 0 {
        lemma_map_of_no_match(pairs.drop_last(), name);
    }
}

/// A parsed display template.
#[derive(Clone, Debug)]
pub struct FormatTemplate {
    tokens: Vec<Token>,
}

/// A placeholder of a template is not terminated.
#[derive(Clone, Copy, Debug, PartialEq, Eq, Structural)]
pub struct ParseError {
    /// Position, in characters, of the opening brace that is never closed.
    pub position: usize,
}

/// A template names a placeholder that has no value.
#[derive(Clone, Debug)]
pub struct RenderError {
    /// Name of the first such placeholder of the template.
    pub placeholder: String,
}

impl View for FormatTemplate {
    type V = Seq<TokenModel>;

    closed spec fn view(&self) -> Seq<TokenModel> {
        self.tokens.deep_view()
    }
}

impl FormatTemplate {
    /// Splits `template` into literals and placeholders. A placeholder starts
    /// at an opening brace and ends at the next closing brace; its name is
    /// what stands between them. The text fails to parse exactly when an
    /// opening brace is followed by no closing brace, and the error gives the
    /// first such brace.
    pub fn from_string(template: &str) -> (r: Result<FormatTemplate, ParseError>)
        ensures
            r is Err <==> unterminated(template@),
            match r {
                Ok(parsed) => canonical(parsed@) && source_of(parsed@) == template@,
                Err(e) => dangling_at(template@, e.position as int) && forall|p: int|
                    dangling_at(template@, p) ==> e.position <= p,
            },
    {
        let n: usize = template.unicode_len();
        let mut tokens: Vec<Token> = Vec::new();
        let mut i: usize = 0;
        while i < n
            invariant
                i <= n,
                n == template@.len(),
                canonical(tokens.deep_view()),
                i < n && tokens.len() > 0 ==> tokens.deep_view().last() is Var,
                source_of(tokens.deep_view()) == template@.subrange(0, i as int),
                forall|p: int| 0 <= p < i && template@[p] == '{' ==> closed_after(template@, p),
            decreases n - i,
        {
            let j: usize = find_from(template, i, '{');
            if j > i {
                let text = String::from_str(template.substring_char(i, j));
                let ghost before = tokens.deep_view();
                tokens.push(Token::Text(text));
                proof {
                    assert(tokens.deep_view() =~= before.push(TokenModel::Text(text@)));
                    lemma_push_text(template@, before, i as int, j as int);
                }
            }
            if j == n {
                i = j;
            } else {
                let k: usize = find_from(template, j + 1, '}');
                if k == n {
                    proof {
                        lemma_dangling(template@, i as int, j as int);
                    }
                    return Err(ParseError { position: j });
                }
                let name = String::from_str(template.substring_char(j + 1, k));
                let ghost before = tokens.deep_view();
                tokens.push(Token::Var(name));
                proof {
                    assert(tokens.deep_view() =~= before.push(TokenModel::Var(name@)));
                    lemma_push_var(template@, before, j as int, k as int);
                    assert forall|p: int| 0 <= p < k + 1 && template@[p] == '{' implies closed_after(
                        template@,
                        p,
                    ) by {
                        if p >= i {
                            assert(template@[k as int] == '}');
                        }
                    }
                }
                i = k + 1;
            }
        }
        proof {
            assert(!unterminated(template@)) by {
                if unterminated(template@) {
                    let p = choose|p: int| dangling_at(template@, p);
                    assert(closed_after(template@, p));
                }
            }
        }
        Ok(FormatTemplate { tokens })
    }

    /// Renders the template: literals as they stand, each placeholder
    /// replaced by its value. Fails where a placeholder has no value, with
    /// the name of the first such placeholder.
    pub fn render(&self, values: &Values) -> (r: Result<String, RenderError>)
        ensures
            match r {
                Ok(text) => render_spec(self@, values@) == Some(text@),
                Err(e) => render_spec(self@, values@) is None && first_undefined(self@, values@)
                    == Some(e.placeholder@),
            },
    {
        let mut out = String::new();
        let mut i: usize = 0;
        while i < self.tokens.len()
            invariant
                i <= self.tokens.len(),
                self@.len() == self.tokens.len(),
                render_spec(self@.take(i as int), values@) == Some(out@),
                first_undefined(self@.take(i as int), values@) is None,
            decreases self.tokens.len() - i,
        {
            proof {
                assert(self@.take(i + 1).drop_last() =~= self@.take(i as int));
            }
            match &self.tokens[i] {
                Token::Text(s) => {
                    out.append(s.as_str());
                },
                Token::Var(name) => {
                    match values.get(name.as_str()) {
                        Some(value) => {
                            out.append(value.as_str());
                        },
                        None => {
                            proof {
                                lemma_undefined_stays(self@, values@, i + 1);
                            }
                            return Err(RenderError { placeholder: name.clone() });
                        },
                    }
                },
            }
            i += 1;
        }
        proof {
            assert(self@.take(i as int) =~= self@);
        }
        Ok(out)
    }
}

/// The first position at or after `from` that holds `wanted`, or the length
/// of `s` where there is none.
fn find_from(s: &str, from: usize, wanted: char) -> (at: usize)
    requires
        from <= s@.len(),
    ensures
        from <= at <= s@.len(),
        at < s@.len() ==> s@[at as int] == wanted,
        forall|p: int| from <= p < at ==> s@[p] != wanted,
{
    let n: usize = s.unicode_len();
    let mut at: usize = from;
    while at < n && s.get_char(at) != wanted
        invariant
            from <= at <= n,
            n == s@.len(),
            forall|p: int| from <= p < at ==> s@[p] != wanted,
        decreases n - at,
    {
        at += 1;
    }
    at
}

/// Appending the literal that runs from `i` to `j` keeps the tokens
/// canonical and extends their source to `j`.
proof fn lemma_push_text(s: Seq<char>, before: Seq<TokenModel>, i: int, j: int)
    requires
        0 <= i < j <= s.len(),
        canonical(before),
        before.len() > 0 ==> before.last() is Var,
        source_of(before) == s.subrange(0, i),
        forall|p: int| i <= p < j ==> s[p] != '{',
    ensures
        canonical(before.push(TokenModel::Text(s.subrange(i, j)))),
        source_of(before.push(TokenModel::Text(s.subrange(i, j)))) == s.subrange(0, j),
{
    let text = s.subrange(i, j);
    let after = before.push(TokenModel::Text(text));
    assert(after.drop_last() =~= before);
    assert(s.subrange(0, j) =~= s.subrange(0, i) + text);
    assert(!text.contains('{')) by {
        if text.contains('{') {
            let k = choose|k: int| 0 <= k < text.len() && text[k] == '{';
            assert(s[i + k] == '{');
        }
    }
    assert forall|k: int| 0 <= k < after.len() implies token_canonical(#[trigger] after[k]) by {
        if k < before.len() {
            assert(after[k] == before[k]);
        }
    }
    assert forall|k: int| 0 <= k < after.len() - 1 implies !(#[trigger] after[k] is Text && after[k
        + 1] is Text) by {
        assert(after[k] == before[k]);
        if k + 1 < before.len() {
            assert(after[k + 1] == before[k + 1]);
        }
    }
}

/// Appending the placeholder whose braces stand at `j` and `k` keeps the
/// tokens canonical and extends their source past `k`.
proof fn lemma_push_var(s: Seq<char>, before: Seq<TokenModel>, j: int, k: int)
    requires
        0 <= j < k < s.len(),
        canonical(before),
        source_of(before) == s.subrange(0, j),
        s[j] == '{',
        s[k] == '}',
        forall|p: int| j < p < k ==> s[p] != '}',
    ensures
        canonical(before.push(TokenModel::Var(s.subrange(j + 1, k)))),
        source_of(before.push(TokenModel::Var(s.subrange(j + 1, k)))) == s.subrange(0, k + 1),
{
    let name = s.subrange(j + 1, k);
    let after = before.push(TokenModel::Var(name));
    assert(after.drop_last() =~= before);
    assert(s.subrange(0, k + 1) =~= s.subrange(0, j) + (seq!['{'] + name + seq!['}']));
    assert(!name.contains('}')) by {
        if name.contains('}') {
            let q = choose|q: int| 0 <= q < name.len() && name[q] == '}';
            assert(s[j + 1 + q] == '}');
        }
    }
    assert forall|q: int| 0 <= q < after.len() implies token_canonical(#[trigger] after[q]) by {
        if q < before.len() {
            assert(after[q] == before[q]);
        }
    }
    assert forall|q: int| 0 <= q < after.len() - 1 implies !(#[trigger] after[q] is Text && after[q
        + 1] is Text) by {
        assert(after[q] == before[q]);
        if q + 1 < before.len() {
            assert(after[q + 1] == before[q + 1]);
        }
    }
}

/// An opening brace at `j` that nothing closes is the first dangling brace
/// when every brace before `i` is closed and none stands from `i` to `j`.
proof fn lemma_dangling(s: Seq<char>, i: int, j: int)
    requires
        0 <= i <= j < s.len(),
        s[j] == '{',
        forall|p: int| j < p < s.len() ==> s[p] != '}',
        forall|p: int| 0 <= p < i && s[p] == '{' ==> closed_after(s, p),
        forall|p: int| i <= p < j ==> s[p] != '{',
    ensures
        dangling_at(s, j),
        unterminated(s),
        forall|p: int| dangling_at(s, p) ==> j <= p,
{
    assert(!closed_after(s, j));
    assert(dangling_at(s, j));
}

/// Once a prefix of the tokens fails to render, so does the whole sequence,
/// at the same placeholder.
pub proof fn lemma_undefined_stays(
    tokens: Seq<TokenModel>,
    values: Map<Seq<char>, Seq<char>>,
    n: int,
)
    requires
        0 <= n <= tokens.len(),
        first_undefined(tokens.take(n), values) is Some,
    ensures
        first_undefined(tokens, values) == first_undefined(tokens.take(n), values),
        render_spec(tokens, values) is None,
        render_spec(tokens.take(n), values) is None,
    decreases tokens.len() - n,
{
    lemma_undefined_fails(tokens.take(n), values);
    if n == tokens.len() {
        assert(tokens.take(n) =~= tokens);
    } else {
        assert(tokens.take(n + 1).drop_last() =~= tokens.take(n));
        lemma_undefined_stays(tokens, values, n + 1);
    }
}

/// Rendering fails exactly when some placeholder has no value.
pub proof fn lemma_undefined_fails(tokens: Seq<TokenModel>, values: Map<Seq<char>, Seq<char>>)
    ensures
        render_spec(tokens, values) is None <==> first_undefined(tokens, values) is Some,
    decreases tokens.len(),
{
    if tokens.len() > 0 {
        lemma_undefined_fails(tokens.drop_last(), values);
    }
}

/// The source of a sequence of tokens begins with the source of its first
/// token.
pub proof fn lemma_source_from_first(tokens: Seq<TokenModel>)
    requires
        tokens.len() > 0,
    ensures
        source_of(tokens) == token_source(tokens[0]) + source_of(tokens.drop_first()),
    decreases tokens.len(),
{
    if tokens.len() == 1 {
        assert(tokens.drop_last() =~= Seq::empty());
        assert(tokens.drop_first() =~= Seq::empty());
        assert(source_of(tokens.drop_last()) =~= Seq::empty());
        assert(source_of(tokens.drop_first()) =~= Seq::empty());
        assert(tokens.last() == tokens[0]);
        assert(source_of(tokens) =~= token_source(tokens[0]) + source_of(tokens.drop_first()));
    } else {
        lemma_source_from_first(tokens.drop_last());
        assert(tokens.drop_first().drop_last() =~= tokens.drop_last().drop_first());
        assert(tokens.drop_first().last() == tokens.last());
        assert(tokens.drop_last()[0] == tokens[0]);
        assert(source_of(tokens) =~= token_source(tokens[0]) + source_of(tokens.drop_first()));
    }
}

/// Canonical tokens stay canonical without their first token, and the source
/// of what follows a literal begins with an opening brace.
pub proof fn lemma_canonical_rest(tokens: Seq<TokenModel>)
    requires
        canonical(tokens),
        tokens.len() > 0,
    ensures
        canonical(tokens.drop_first()),
        token_source(tokens[0]).len() > 0,
        tokens[0] is Text && tokens.len() > 1 ==> source_of(tokens.drop_first()).len() > 0
            && source_of(tokens.drop_first())[0] == '{',
{
    let rest = tokens.drop_first();
    assert forall|i: int| 0 <= i < rest.len() implies token_canonical(#[trigger] rest[i]) by {
        assert(rest[i] == tokens[i + 1]);
    }
    assert forall|i: int| 0 <= i < rest.len() - 1 implies !(#[trigger] rest[i] is Text && rest[i
        + 1] is Text) by {
        assert(rest[i] == tokens[i + 1]);
        assert(rest[i + 1] == tokens[i + 2]);
    }
    assert(token_canonical(tokens[0]));
    if tokens[0] is Text && tokens.len() > 1 {
        assert(rest[0] == tokens[1]);
        assert(rest[0] is Var);
        lemma_source_from_first(rest);
    }
}

/// A template text has at most one canonical sequence of tokens: two such
/// sequences with the same source are equal.
pub proof fn lemma_canonical_unique(a: Seq<TokenModel>, b: Seq<TokenModel>)
    requires
        canonical(a),
        canonical(b),
        source_of(a) == source_of(b),
    ensures
        a == b,
    decreases a.len(),
{
    if a.len() == 0 || b.len() == 0 {
        if a.len() > 0 {
            lemma_source_from_first(a);
            lemma_canonical_rest(a);
        }
        if b.len() > 0 {
            lemma_source_from_first(b);
            lemma_canonical_rest(b);
        }
        assert(a =~= b);
    } else {
        let s = source_of(a);
        let rest_a = source_of(a.drop_first());
        let rest_b = source_of(b.drop_first());
        lemma_source_from_first(a);
        lemma_source_from_first(b);
        lemma_canonical_rest(a);
        lemma_canonical_rest(b);
        assert(token_canonical(a[0]) && token_canonical(b[0]));
        let first_a = token_source(a[0]);
        let first_b = token_source(b[0]);
        assert(s[0] == first_a[0] && s[0] == first_b[0]);
        match (a[0], b[0]) {
            (TokenModel::Var(x), TokenModel::Var(y)) => {
                assert(first_a[0] == '{');
                let nx = x.len() as int;
                let ny = y.len() as int;
                if nx < ny {
                    assert(s[1 + nx] == first_a[1 + nx]);
                    assert(s[1 + nx] == first_b[1 + nx]);
                    assert(y[nx] == '}');
                } else if ny < nx {
                    assert(s[1 + ny] == first_b[1 + ny]);
                    assert(s[1 + ny] == first_a[1 + ny]);
                    assert(x[ny] == '}');
                }
                assert(x =~= y) by {
                    assert forall|i: int| 0 <= i < x.len() implies x[i] == y[i] by {
                        assert(s[1 + i] == first_a[1 + i]);
                        assert(s[1 + i] == first_b[1 + i]);
                    }
                }
            },
            (TokenModel::Text(x), TokenModel::Text(y)) => {
                if x.len() < y.len() {
                    assert(a.len() > 1) by {
                        if a.len() == 1 {
                            assert(a.drop_first() =~= Seq::empty());
                        }
                    }
                    assert(s[x.len() as int] == rest_a[0]);
                    assert(s[x.len() as int] == y[x.len() as int]);
                } else if y.len() < x.len() {
                    assert(b.len() > 1) by {
                        if b.len() == 1 {
                            assert(b.drop_first() =~= Seq::empty());
                        }
                    }
                    assert(s[y.len() as int] == rest_b[0]);
                    assert(s[y.len() as int] == x[y.len() as int]);
                }
                assert(x =~= y) by {
                    assert forall|i: int| 0 <= i < x.len() implies x[i] == y[i] by {
                        assert(s[i] == first_a[i]);
                        assert(s[i] == first_b[i]);
                    }
                }
            },
            (TokenModel::Var(x), TokenModel::Text(y)) => {
                assert(first_a[0] == '{');
                assert(y[0] == '{');
            },
            (TokenModel::Text(x), TokenModel::Var(y)) => {
                assert(first_b[0] == '{');
                assert(x[0] == '{');
            },
        }
        assert(a[0] == b[0]);
        assert(rest_a =~= rest_b) by {
            assert(rest_a =~= s.subrange(first_a.len() as int, s.len() as int));
            assert(rest_b =~= s.subrange(first_b.len() as int, s.len() as int));
        }
        lemma_canonical_unique(a.drop_first(), b.drop_first());
        assert(a =~= b) by {
            assert forall|i: int| 0 <= i < a.len() implies a[i] == b[i] by {
                if i > 0 {
                    assert(a[i] == a.drop_first()[i - 1]);
                    assert(b[i] == b.drop_first()[i - 1]);
                }
            }
            assert(a.len() == a.drop_first().len() + 1);
            assert(b.len() == b.drop_first().len() + 1);
        }
    }
}

/// Rendering succeeds exactly when every placeholder of the template has a
/// value.
pub proof fn lemma_render_needs_every_value(tokens: Seq<TokenModel>, values: Map<Seq<char>, Seq<char>>)
    ensures
        render_spec(tokens, values) is Some <==> forall|i: int|
            0 <= i < tokens.len() ==> (#[trigger] tokens[i] matches TokenModel::Var(name)
                ==> values.dom().contains(name)),
    decreases tokens.len(),
{
    if tokens.len() > 0 {
        let head = tokens.drop_last();
        lemma_render_needs_every_value(head, values);
        if render_spec(tokens, values) is Some {
            assert forall|i: int| 0 <= i < tokens.len() implies (#[trigger] tokens[i] matches TokenModel::Var(
                name,
            ) ==> values.dom().contains(name)) by {
                if i < head.len() {
                    assert(head[i] == tokens[i]);
                }
            }
        } else {
            if render_spec(head, values) is None {
                let i = choose|i: int|
                    0 <= i < head.len() && !(#[trigger] head[i] matches TokenModel::Var(name)
                        ==> values.dom().contains(name));
                assert(tokens[i] == head[i]);
            } else {
                assert(tokens[tokens.len() - 1] == tokens.last());
            }
        }
    }
}

/// The text that a template renders to does not depend on the order in which
/// two different names were given their values.
pub proof fn lemma_render_ignores_order(
    tokens: Seq<TokenModel>,
    values: Map<Seq<char>, Seq<char>>,
    a: Seq<char>,
    x: Seq<char>,
    b: Seq<char>,
    y: Seq<char>,
)
    requires
        a != b,
    ensures
        render_spec(tokens, values.insert(a, x).insert(b, y)) == render_spec(
            tokens,
            values.insert(b, y).insert(a, x),
        ),
{
    assert(values.insert(a, x).insert(b, y) =~= values.insert(b, y).insert(a, x));
}

} // verus!
