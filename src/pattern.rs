//! Wildcard patterns over subjects and their specificity order.
use vstd::prelude::*;
use vstd::string::*;
use crate::error::SubjectError;
use crate::subject::{subject_string, Subject};
use crate::text::{all_token_chars, split_on, split_text, token_chars_ok, views};

verus! {

/// A token of a pattern, as the contracts see it.
pub enum TokenView {
    Literal(Seq<char>),
    Single,
    Multi,
}

/// What a dot-separated piece of a pattern stands for.
pub open spec fn token_of(t: Seq<char>) -> TokenView {
    if t == seq!['*'] {
        TokenView::Single
    } else if t == seq!['>'] {
        TokenView::Multi
    } else {
        TokenView::Literal(t)
    }
}

/// Piece `i` of `parts` is acceptable in a pattern: non-empty, and `*`, or `>`
/// in last place, or made of allowed characters.
pub open spec fn valid_piece(parts: Seq<Seq<char>>, i: int) -> bool {
    &&& parts[i].len() > 0
    &&& parts[i] == seq!['>'] ==> i == parts.len() - 1
    &&& (parts[i] == seq!['*'] || parts[i] == seq!['>'] || all_token_chars(parts[i]))
}

/// The text is a well-formed pattern.
pub open spec fn valid_pattern(s: Seq<char>) -> bool {
    let parts = split_on(s, '.');
    s.len() > 0 && forall|i: int| 0 <= i < parts.len() ==> #[trigger] valid_piece(parts, i)
}

/// The tokens of a pattern text.
pub open spec fn pattern_tokens(s: Seq<char>) -> Seq<TokenView> {
    split_on(s, '.').map_values(|t: Seq<char>| token_of(t))
}

/// Whether pattern tokens `p` match subject tokens `s`, walked in lock-step.
pub open spec fn tokens_match(p: Seq<TokenView>, s: Seq<Seq<char>>) -> bool
    decreases p.len(),
{
    if p.len() == 0 {
        s.len() == 0
    } else if s.len() == 0 {
        false
    } else {
        match p[0] {
            TokenView::Multi => true,
            TokenView::Single => tokens_match(p.skip(1), s.skip(1)),
            TokenView::Literal(l) => l == s[0] && tokens_match(p.skip(1), s.skip(1)),
        }
    }
}

/// Whether the pattern text `p` matches the subject text `s`.
pub open spec fn pattern_matches(p: Seq<char>, s: Seq<char>) -> bool {
    tokens_match(pattern_tokens(p), split_on(s, '.'))
}

pub open spec fn is_wild(t: TokenView) -> bool {
    !(t is Literal)
}

pub open spec fn has_multi(p: Seq<TokenView>) -> bool
    decreases p.len(),
{
    p.len() > 0 && (has_multi(p.drop_last()) || p.last() is Multi)
}

pub open spec fn count_single(p: Seq<TokenView>) -> int
    decreases p.len(),
{
    if p.len() == 0 {
        0
    } else {
        count_single(p.drop_last()) + if p.last() is Single { 1int } else { 0int }
    }
}

/// The position of the first wildcard, if any.
pub open spec fn first_wild(p: Seq<TokenView>) -> Option<int>
    decreases p.len(),
{
    if p.len() == 0 {
        None
    } else {
        match first_wild(p.drop_last()) {
            Some(k) => Some(k),
            None => if is_wild(p.last()) { Some(p.len() - 1) } else { None },
        }
    }
}

/// `a` is strictly more specific than `b`: no `>` beats `>`; then fewer `*`;
/// then a later first wildcard (none at all counts as latest).
pub open spec fn more_specific_tokens(a: Seq<TokenView>, b: Seq<TokenView>) -> bool {
    if has_multi(a) != has_multi(b) {
        !has_multi(a)
    } else if count_single(a) != count_single(b) {
        count_single(a) < count_single(b)
    } else {
        match (first_wild(a), first_wild(b)) {
            (None, Some(_)) => true,
            (Some(x), Some(y)) => x > y,
            _ => false,
        }
    }
}

/// The pattern text `a` is strictly more specific than the pattern text `b`.
pub open spec fn more_specific(a: Seq<char>, b: Seq<char>) -> bool {
    more_specific_tokens(pattern_tokens(a), pattern_tokens(b))
}

/// The first `k` pattern tokens that are literals equal the subject tokens
/// in the same places.
pub open spec fn literals_agree(p: Seq<TokenView>, s: Seq<Seq<char>>, k: int) -> bool {
    forall|i: int| 0 <= i < k && i < s.len() && (#[trigger] p[i]) is Literal ==> s[i] == p[i]->Literal_0
}

/// Matching by token count: a pattern ending in `>` matches a subject with at
/// least as many tokens as the pattern whose tokens before the `>` agree with
/// the literals; any other pattern matches a subject with exactly as many
/// tokens whose tokens agree with the literals. `*` takes any one token.
pub proof fn lemma_match_by_count(p: Seq<TokenView>, s: Seq<Seq<char>>)
    requires
        p.len() >= 1,
        forall|i: int| 0 <= i < p.len() - 1 ==> !((#[trigger] p[i]) is Multi),
    ensures
        tokens_match(p, s) == if p.last() is Multi {
            s.len() >= p.len() && literals_agree(p, s, p.len() - 1)
        } else {
            s.len() == p.len() && literals_agree(p, s, p.len() as int)
        },
    decreases p.len(),
{
    if s.len() == 0 {
    } else if p.len() == 1 {
        assert(p.skip(1).len() == 0);
        assert(s.skip(1).len() == s.len() - 1);
        assert(tokens_match(p.skip(1), s.skip(1)) == (s.skip(1).len() == 0));
        if p[0] is Literal {
            assert(literals_agree(p, s, 1) == (s[0] == p[0]->Literal_0));
            assert(tokens_match(p, s) == (p[0]->Literal_0 == s[0] && s.len() == 1));
        } else if p[0] is Single {
            assert(tokens_match(p, s) == (s.len() == 1));
        }
    } else {
        let p1 = p.skip(1);
        let s1 = s.skip(1);
        assert(forall|i: int| 0 <= i < p1.len() ==> p1[i] == p[i + 1]);
        assert(forall|i: int| 0 <= i < s1.len() ==> s1[i] == s[i + 1]);
        lemma_match_by_count(p1, s1);
        assert(p1.last() == p.last());
        let k = if p.last() is Multi { p.len() - 1 } else { p.len() as int };
        assert(!(p[0] is Multi));
        assert(tokens_match(p, s) == ((p[0] is Literal ==> p[0]->Literal_0 == s[0])
            && tokens_match(p1, s1)));
        assert(literals_agree(p, s, k) == ((p[0] is Literal ==> s[0] == p[0]->Literal_0)
            && literals_agree(p1, s1, k - 1))) by {
            if literals_agree(p, s, k) {
                assert forall|i: int| 0 <= i < k - 1 && i < s1.len() && (#[trigger] p1[i]) is Literal
                    implies s1[i] == p1[i]->Literal_0 by {
                    assert(p1[i] == p[i + 1]);
                    assert(s1[i] == s[i + 1]);
                }
            }
            if (p[0] is Literal ==> s[0] == p[0]->Literal_0) && literals_agree(p1, s1, k - 1) {
                assert forall|i: int| 0 <= i < k && i < s.len() && (#[trigger] p[i]) is Literal
                    implies s[i] == p[i]->Literal_0 by {
                    if i > 0 {
                        assert(p1[i - 1] == p[i]);
                        assert(s1[i - 1] == s[i]);
                    }
                }
            }
        }
    }
}

/// For a well-formed pattern text, matching is decided by token count and
/// literal agreement as `lemma_match_by_count` states.
pub proof fn lemma_pattern_matches_by_count(p: Seq<char>, s: Seq<char>)
    requires
        valid_pattern(p),
    ensures
        ({
            let t = pattern_tokens(p);
            let u = split_on(s, '.');
            pattern_matches(p, s) == if t.last() is Multi {
                u.len() >= t.len() && literals_agree(t, u, t.len() - 1)
            } else {
                u.len() == t.len() && literals_agree(t, u, t.len() as int)
            }
        }),
{
    let parts = split_on(p, '.');
    let t = pattern_tokens(p);
    crate::text::lemma_split_nonempty(p, '.');
    assert forall|i: int| 0 <= i < t.len() - 1 implies !((#[trigger] t[i]) is Multi) by {
        assert(valid_piece(parts, i));
        if parts[i] == seq!['>'] {
        }
    }
    lemma_match_by_count(t, split_on(s, '.'));
}

/// Specificity is transitive.
pub proof fn lemma_more_specific_transitive(a: Seq<char>, b: Seq<char>, c: Seq<char>)
    requires
        more_specific(a, b),
        more_specific(b, c),
    ensures
        more_specific(a, c),
{
}

/// Specificity is irreflexive.
pub proof fn lemma_more_specific_irreflexive(a: Seq<char>)
    ensures
        !more_specific(a, a),
{
}

/// If `a` beats `c`, any `b` is beaten by `a` or beats `c`: equally specific
/// patterns are interchangeable in the order.
pub proof fn lemma_more_specific_split(a: Seq<char>, b: Seq<char>, c: Seq<char>)
    requires
        more_specific(a, c),
    ensures
        more_specific(a, b) || more_specific(b, c),
{
}

/// Construction rejects the empty text, an empty token, a `>` before the
/// last place, and a literal token with a character outside `[A-Za-z0-9_-]`.
pub proof fn lemma_pattern_rejects(s: Seq<char>, i: int)
    requires
        0 <= i < split_on(s, '.').len(),
        s.len() == 0 || split_on(s, '.')[i].len() == 0 || (split_on(s, '.')[i] == seq!['>'] && i
            < split_on(s, '.').len() - 1) || (split_on(s, '.')[i] != seq!['*'] && split_on(
            s,
            '.',
        )[i] != seq!['>'] && !all_token_chars(split_on(s, '.')[i])),
    ensures
        !valid_pattern(s),
{
    assert(!valid_piece(split_on(s, '.'), i) || s.len() == 0);
}

/// A token of a pattern.
#[derive(Debug, Clone, PartialEq, Eq, Hash)]
pub enum Token {
    /// Literal token that must match exactly
    Literal(String),
    /// Single wildcard (*)
    SingleWildcard,
    /// Multi wildcard (>)
    MultiWildcard,
}

impl View for Token {
    type V = TokenView;

    open spec fn view(&self) -> TokenView {
        match self {
            Token::Literal(s) => TokenView::Literal(s@),
            Token::SingleWildcard => TokenView::Single,
            Token::MultiWildcard => TokenView::Multi,
        }
    }
}

pub open spec fn token_views(v: Seq<Token>) -> Seq<TokenView> {
    v.map_values(|t: Token| t@)
}

/// A pattern for matching subjects with wildcards: `*` matches exactly one
/// token, `>` one or more trailing tokens.
#[derive(Debug, PartialEq, Eq, Hash)]
pub struct Pattern {
    raw: String,
    tokens: Vec<Token>,
}

impl View for Pattern {
    type V = Seq<char>;

    /// The text of the pattern.
    closed spec fn view(&self) -> Seq<char> {
        self.raw@
    }
}

fn clone_token(t: &Token) -> (r: Token)
    ensures
        r@ == t@,
{
    match t {
        Token::Literal(s) => Token::Literal(s.clone()),
        Token::SingleWildcard => Token::SingleWildcard,
        Token::MultiWildcard => Token::MultiWildcard,
    }
}

impl Clone for Pattern {
    fn clone(&self) -> (r: Self)
        ensures
            r@ == self@,
    {
        proof {
            use_type_invariant(self);
        }
        let mut tokens: Vec<Token> = Vec::new();
        let mut i: usize = 0;
        while i < self.tokens.len()
            invariant
                i <= self.tokens@.len(),
                token_views(tokens@) == token_views(self.tokens@).subrange(0, i as int),
            decreases self.tokens@.len() - i,
        {
            let ghost before = tokens@;
            tokens.push(clone_token(&self.tokens[i]));
            i = i + 1;
            assert(token_views(tokens@) =~= token_views(before).push(self.tokens@[i - 1]@));
            assert(token_views(tokens@) =~= token_views(self.tokens@).subrange(0, i as int));
        }
        assert(token_views(tokens@) =~= token_views(self.tokens@));
        Pattern { raw: self.raw.clone(), tokens }
    }
}

fn is_single_char(s: &str, c: char) -> (r: bool)
    ensures
        r == (s@ == seq![c]),
{
    if s.unicode_len() == 1 {
        let d = s.get_char(0);
        assert(s@ == seq![c] <==> s@ =~= seq![d] && d == c);
        d == c
    } else {
        false
    }
}

impl Pattern {
    #[verifier::type_invariant]
    spec fn tokens_from_text(&self) -> bool {
        valid_pattern(self.raw@) && token_views(self.tokens@) == pattern_tokens(self.raw@)
    }

    /// Create a new pattern from its text.
    pub fn new(pattern: &str) -> (r: Result<Self, SubjectError>)
        ensures
            r is Ok <==> valid_pattern(pattern@),
            r is Ok ==> r->Ok_0@ == pattern@,
            r is Err ==> r->Err_0 is InvalidPattern,
    {
        let tokens = Self::parse_tokens(pattern)?;
        Ok(Pattern { raw: String::from_str(pattern), tokens })
    }

    /// Parse pattern tokens
    fn parse_tokens(pattern: &str) -> (r: Result<Vec<Token>, SubjectError>)
        ensures
            r is Ok <==> valid_pattern(pattern@),
            r is Ok ==> token_views(r->Ok_0@) == pattern_tokens(pattern@),
            r is Err ==> r->Err_0 is InvalidPattern,
    {
        if pattern.is_empty() {
            return Err(SubjectError::invalid_pattern("Pattern cannot be empty"));
        }
        let parts = split_text(pattern, '.');
        let ghost pv = split_on(pattern@, '.');
        let mut tokens: Vec<Token> = Vec::new();
        let mut i: usize = 0;
        while i < parts.len()
            invariant
                views(parts@) == pv,
                pv == split_on(pattern@, '.'),
                pattern@.len() > 0,
                i <= parts@.len(),
                forall|j: int| 0 <= j < i ==> #[trigger] valid_piece(pv, j),
                token_views(tokens@) == pv.subrange(0, i as int).map_values(
                    |t: Seq<char>| token_of(t),
                ),
            decreases parts@.len() - i,
        {
            let part = parts[i].as_str();
            assert(pv.len() == parts@.len());
            assert(part@ == pv[i as int]);
            if part.is_empty() {
                assert(!valid_piece(pv, i as int));
                return Err(SubjectError::invalid_pattern("Empty token in pattern"));
            }
            let ghost before = tokens@;
            if is_single_char(part, '*') {
                assert(part@[0] == '*');
                tokens.push(Token::SingleWildcard);
            } else if is_single_char(part, '>') {
                if i != parts.len() - 1 {
                    assert(!valid_piece(pv, i as int));
                    return Err(
                        SubjectError::invalid_pattern(
                            "Multi-wildcard '>' can only appear at the end of a pattern",
                        ),
                    );
                }
                tokens.push(Token::MultiWildcard);
            } else {
                if !token_chars_ok(part) {
                    assert(!valid_piece(pv, i as int));
                    return Err(SubjectError::invalid_pattern("Token contains invalid characters"));
                }
                tokens.push(Token::Literal(String::from_str(part)));
            }
            assert(pv[i as int].len() > 0);
            assert(pv[i as int] == seq!['>'] ==> i == pv.len() - 1);
            assert(valid_piece(pv, i as int));
            i = i + 1;
            assert(token_views(tokens@) =~= token_views(before).push(token_of(pv[i - 1])));
            assert(token_views(tokens@) =~= pv.subrange(0, i as int).map_values(
                |t: Seq<char>| token_of(t),
            ));
        }
        assert(pv.subrange(0, i as int) =~= pv);
        Ok(tokens)
    }

    /// Check if a subject matches this pattern
    pub fn matches(&self, subject: &Subject) -> (r: bool)
        ensures
            r == pattern_matches(self@, subject_string(subject@)),
    {
        self.matches_str(subject.as_str())
    }

    /// Check if a subject string matches this pattern; any text may be given.
    pub fn matches_str(&self, subject: &str) -> (r: bool)
        ensures
            r == pattern_matches(self@, subject@),
    {
        let subject_parts = split_text(subject, '.');
        self.matches_parts(&subject_parts)
    }

    /// Check if subject parts match this pattern
    fn matches_parts(&self, subject_parts: &Vec<String>) -> (r: bool)
        ensures
            r == tokens_match(pattern_tokens(self@), views(subject_parts@)),
    {
        proof {
            use_type_invariant(self);
        }
        let ghost p = token_views(self.tokens@);
        let ghost s = views(subject_parts@);
        let n = self.tokens.len();
        let m = subject_parts.len();
        let mut i: usize = 0;
        assert(p.subrange(0, n as int) =~= p);
        assert(s.subrange(0, m as int) =~= s);
        while i < n && i < m
            invariant
                n == p.len(),
                m == s.len(),
                p == token_views(self.tokens@),
                p == pattern_tokens(self@),
                s == views(subject_parts@),
                i <= n,
                i <= m,
                tokens_match(p, s) == tokens_match(p.subrange(i as int, n as int), s.subrange(i as int, m as int)),
            decreases n - i,
        {
            let ghost ps = p.subrange(i as int, n as int);
            let ghost ss = s.subrange(i as int, m as int);
            assert(ps.skip(1) =~= p.subrange(i + 1, n as int));
            assert(ss.skip(1) =~= s.subrange(i + 1, m as int));
            assert(p[i as int] == self.tokens@[i as int]@);
            assert(ps[0] == self.tokens@[i as int]@);
            assert(ss[0] == s[i as int]);
            assert(s[i as int] == subject_parts@[i as int]@);
            match &self.tokens[i] {
                Token::MultiWildcard => {
                    assert(tokens_match(ps, ss));
                    return true;
                },
                Token::SingleWildcard => {
                    assert(tokens_match(ps, ss) == tokens_match(ps.skip(1), ss.skip(1)));
                    i = i + 1;
                },
                Token::Literal(literal) => {
                    assert(tokens_match(ps, ss) == (literal@ == ss[0] && tokens_match(ps.skip(1), ss.skip(1))));
                    if !literal.eq(&subject_parts[i]) {
                        return false;
                    }
                    i = i + 1;
                },
            }
        }
        i == n && i == m
    }

    /// Get the raw pattern string
    pub fn as_str(&self) -> (r: &str)
        ensures
            r@ == self@,
    {
        self.raw.as_str()
    }

    /// The pattern text.
    pub fn to_string(&self) -> (r: String)
        ensures
            r@ == self@,
    {
        self.raw.clone()
    }

    /// Whether the pattern holds a `>`, how many `*` it holds, and where its
    /// first wildcard stands.
    fn specificity_key(&self) -> (r: (bool, usize, Option<usize>))
        ensures
            r.0 == has_multi(pattern_tokens(self@)),
            r.1 == count_single(pattern_tokens(self@)),
            match r.2 {
                Some(k) => first_wild(pattern_tokens(self@)) == Some(k as int),
                None => first_wild(pattern_tokens(self@)) is None,
            },
    {
        proof {
            use_type_invariant(self);
        }
        let ghost p = token_views(self.tokens@);
        let mut multi = false;
        let mut singles: usize = 0;
        let mut first: Option<usize> = None;
        let mut i: usize = 0;
        while i < self.tokens.len()
            invariant
                p == token_views(self.tokens@),
                i <= p.len(),
                multi == has_multi(p.subrange(0, i as int)),
                singles as int == count_single(p.subrange(0, i as int)),
                singles <= i,
                match first {
                    Some(k) => first_wild(p.subrange(0, i as int)) == Some(k as int),
                    None => first_wild(p.subrange(0, i as int)) is None,
                },
            decreases p.len() - i,
        {
            assert(p.subrange(0, i + 1).drop_last() =~= p.subrange(0, i as int));
            assert(p.subrange(0, i + 1).last() == self.tokens@[i as int]@);
            match &self.tokens[i] {
                Token::MultiWildcard => {
                    multi = true;
                    if first.is_none() {
                        first = Some(i);
                    }
                },
                Token::SingleWildcard => {
                    singles = singles + 1;
                    if first.is_none() {
                        first = Some(i);
                    }
                },
                Token::Literal(_) => {},
            }
            i = i + 1;
        }
        assert(p.subrange(0, i as int) =~= p);
        (multi, singles, first)
    }

    /// Check if this pattern is strictly more specific than another.
    pub fn is_more_specific_than(&self, other: &Pattern) -> (r: bool)
        ensures
            r == more_specific(self@, other@),
    {
        let (self_multi, self_singles, self_first) = self.specificity_key();
        let (other_multi, other_singles, other_first) = other.specificity_key();
        if self_multi != other_multi {
            return !self_multi;
        }
        if self_singles != other_singles {
            return self_singles < other_singles;
        }
        match (self_first, other_first) {
            (None, Some(_)) => true,
            (Some(a), Some(b)) => a > b,
            _ => false,
        }
    }
}

impl std::str::FromStr for Pattern {
    type Err = SubjectError;

    fn from_str(s: &str) -> Result<Self, SubjectError> {
        Pattern::new(s)
    }
}

/// Types that can be matched against a pattern.
pub trait PatternMatcher {
    /// The subject text that is matched.
    spec fn matched_text(&self) -> Seq<char>;

    /// Check if this matches the given pattern
    fn matches_pattern(&self, pattern: &Pattern) -> (r: bool)
        ensures
            r == pattern_matches(pattern@, self.matched_text()),
    ;
}

impl PatternMatcher for Subject {
    open spec fn matched_text(&self) -> Seq<char> {
        subject_string(self@)
    }

    fn matches_pattern(&self, pattern: &Pattern) -> (r: bool) {
        pattern.matches(self)
    }
}

impl PatternMatcher for str {
    open spec fn matched_text(&self) -> Seq<char> {
        self@
    }

    fn matches_pattern(&self, pattern: &Pattern) -> (r: bool) {
        pattern.matches_str(self)
    }
}

impl PatternMatcher for String {
    open spec fn matched_text(&self) -> Seq<char> {
        self@
    }

    fn matches_pattern(&self, pattern: &Pattern) -> (r: bool) {
        pattern.matches_str(self.as_str())
    }
}

} // verus!
