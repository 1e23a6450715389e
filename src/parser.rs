//! The parser that turns the text of a `SecRule` directive into a rule.
use vstd::prelude::*;
use crate::errors::{ParseError, ValidationErrors};
use crate::rule::{
    default_rule, opt_text, operator_named, phase_numbered, severity_numbered, texts,
    variable_named, Operator, Phase, RuleSpec, SecRule, Severity, Variable,
};
use crate::text::{chars_of, char_is_space, is_space, same_chars, slice_chars, string_of, trim, trimmed};

verus! {

/// `s` with each backslash-newline turned into a space and every other
/// backslash dropped.
pub open spec fn unescaped(s: Seq<char>) -> Seq<char>
    decreases s.len(),
{
    if s.len() == 0 {
        Seq::empty()
    } else if s[0] == '\\' && s.len() >= 2 && s[1] == '\n' {
        seq![' '] + unescaped(s.skip(2))
    } else if s[0] == '\\' {
        unescaped(s.drop_first())
    } else {
        seq![s[0]] + unescaped(s.drop_first())
    }
}

/// `s` with its runs of white space collapsed into single spaces and none at
/// either end. `started`: a word has been written; `gap`: white space
/// follows it.
pub open spec fn squeezed(s: Seq<char>, started: bool, gap: bool) -> Seq<char>
    decreases s.len(),
{
    if s.len() == 0 {
        Seq::empty()
    } else if is_space(s[0]) {
        squeezed(s.drop_first(), started, true)
    } else if started && gap {
        seq![' ', s[0]] + squeezed(s.drop_first(), true, false)
    } else {
        seq![s[0]] + squeezed(s.drop_first(), true, false)
    }
}

/// The text of a rule once line continuations and white space are normalised.
pub open spec fn normalized(raw: Seq<char>) -> Seq<char> {
    squeezed(unescaped(raw), false, false)
}

pub fn unescape(v: &[char]) -> (r: Vec<char>)
    ensures
        r@ == unescaped(v@),
{
    let mut r: Vec<char> = Vec::new();
    let mut i: usize = 0;
    assert(v@.skip(0) =~= v@);
    while i < v.len()
        invariant
            i <= v.len(),
            r@ + unescaped(v@.skip(i as int)) == unescaped(v@),
        decreases v.len() - i,
    {
        let ghost rest = v@.skip(i as int);
        if v[i] == '\\' && i + 1 < v.len() && v[i + 1] == '\n' {
            assert(rest.skip(2) =~= v@.skip(i + 2));
            r.push(' ');
            assert(r@ + unescaped(v@.skip(i + 2)) =~= unescaped(v@)) by {
                assert(unescaped(rest) == seq![' '] + unescaped(rest.skip(2)));
            }
            i = i + 2;
        } else if v[i] == '\\' {
            assert(rest.drop_first() =~= v@.skip(i + 1));
            i = i + 1;
        } else {
            assert(rest.drop_first() =~= v@.skip(i + 1));
            r.push(v[i]);
            assert(r@ + unescaped(v@.skip(i + 1)) =~= unescaped(v@)) by {
                assert(unescaped(rest) == seq![rest[0]] + unescaped(rest.drop_first()));
            }
            i = i + 1;
        }
    }
    assert(unescaped(v@.skip(i as int)) =~= Seq::empty());
    assert(r@ =~= r@ + Seq::<char>::empty());
    r
}

pub fn squeeze(v: &[char]) -> (r: Vec<char>)
    ensures
        r@ == squeezed(v@, false, false),
{
    let mut r: Vec<char> = Vec::new();
    let mut started = false;
    let mut gap = false;
    let mut i: usize = 0;
    assert(v@.skip(0) =~= v@);
    while i < v.len()
        invariant
            i <= v.len(),
            r@ + squeezed(v@.skip(i as int), started, gap) == squeezed(v@, false, false),
        decreases v.len() - i,
    {
        let ghost rest = v@.skip(i as int);
        assert(rest.drop_first() =~= v@.skip(i + 1));
        let c = v[i];
        if char_is_space(c) {
            gap = true;
        } else if started && gap {
            r.push(' ');
            r.push(c);
            assert(r@ + squeezed(v@.skip(i + 1), true, false) =~= squeezed(v@, false, false));
            started = true;
            gap = false;
        } else {
            r.push(c);
            assert(r@ + squeezed(v@.skip(i + 1), true, false) =~= squeezed(v@, false, false));
            started = true;
            gap = false;
        }
        i = i + 1;
    }
    assert(r@ =~= r@ + Seq::<char>::empty());
    r
}

/// The characters of each vector, in order.
pub open spec fn char_lists(v: Seq<Vec<char>>) -> Seq<Seq<char>> {
    v.map_values(|x: Vec<char>| x@)
}

/// The top-level tokens of `s`, scanning from the start with the tokens
/// `parts` already found, the token `cur` under way, and `quoted` telling
/// whether a double quote is open. Spaces outside quotes separate tokens;
/// a quoted run is one token, without its quotes.
pub open spec fn split_tokens(s: Seq<char>, parts: Seq<Seq<char>>, cur: Seq<char>, quoted: bool) -> Seq<Seq<char>>
    decreases s.len(),
{
    if s.len() == 0 {
        if cur.len() > 0 {
            parts.push(cur)
        } else {
            parts
        }
    } else if s[0] == '"' {
        if quoted {
            split_tokens(s.drop_first(), parts.push(cur), Seq::empty(), false)
        } else if cur.len() > 0 {
            split_tokens(s.drop_first(), parts.push(cur), Seq::empty(), true)
        } else {
            split_tokens(s.drop_first(), parts, cur, true)
        }
    } else if s[0] == ' ' && !quoted {
        if cur.len() > 0 {
            split_tokens(s.drop_first(), parts.push(cur), Seq::empty(), false)
        } else {
            split_tokens(s.drop_first(), parts, cur, false)
        }
    } else {
        split_tokens(s.drop_first(), parts, cur.push(s[0]), quoted)
    }
}

/// The top-level tokens of `s`.
pub open spec fn tokens(s: Seq<char>) -> Seq<Seq<char>> {
    split_tokens(s, Seq::empty(), Seq::empty(), false)
}

pub fn tokenize(v: &[char]) -> (r: Vec<Vec<char>>)
    ensures
        char_lists(r@) == tokens(v@),
{
    let mut parts: Vec<Vec<char>> = Vec::new();
    let mut cur: Vec<char> = Vec::new();
    let mut quoted = false;
    let mut i: usize = 0;
    assert(v@.skip(0) =~= v@);
    assert(char_lists(parts@) =~= Seq::empty());
    while i < v.len()
        invariant
            i <= v.len(),
            split_tokens(v@.skip(i as int), char_lists(parts@), cur@, quoted) == tokens(v@),
        decreases v.len() - i,
    {
        let ghost rest = v@.skip(i as int);
        let ghost before = char_lists(parts@);
        assert(rest.drop_first() =~= v@.skip(i + 1));
        let c = v[i];
        if c == '"' {
            if quoted {
                parts.push(cur);
                cur = Vec::new();
                quoted = false;
            } else {
                if cur.len() > 0 {
                    parts.push(cur);
                    cur = Vec::new();
                }
                quoted = true;
            }
        } else if c == ' ' && !quoted {
            if cur.len() > 0 {
                parts.push(cur);
                cur = Vec::new();
            }
        } else {
            cur.push(c);
        }
        assert(char_lists(parts@) =~= before || char_lists(parts@) =~= before.push(char_lists(parts@).last()));
        i = i + 1;
    }
    if cur.len() > 0 {
        parts.push(cur);
    }
    assert(char_lists(parts@) =~= tokens(v@));
    parts
}

/// The pieces of `s` between the separators `sep`, with `cur` the piece
/// under way: one more piece than there are separators.
pub open spec fn split_pieces(s: Seq<char>, sep: char, cur: Seq<char>) -> Seq<Seq<char>>
    decreases s.len(),
{
    if s.len() == 0 {
        seq![cur]
    } else if s[0] == sep {
        seq![cur] + split_pieces(s.drop_first(), sep, Seq::empty())
    } else {
        split_pieces(s.drop_first(), sep, cur.push(s[0]))
    }
}

/// The pieces of `s` between the separators `sep`.
pub open spec fn split_on(s: Seq<char>, sep: char) -> Seq<Seq<char>> {
    split_pieces(s, sep, Seq::empty())
}

pub fn split_chars(v: &[char], sep: char) -> (r: Vec<Vec<char>>)
    ensures
        char_lists(r@) == split_on(v@, sep),
{
    let mut pieces: Vec<Vec<char>> = Vec::new();
    let mut cur: Vec<char> = Vec::new();
    let mut i: usize = 0;
    assert(v@.skip(0) =~= v@);
    assert(char_lists(pieces@) =~= Seq::empty());
    assert(Seq::<Seq<char>>::empty() + split_on(v@, sep) =~= split_on(v@, sep));
    while i < v.len()
        invariant
            i <= v.len(),
            char_lists(pieces@) + split_pieces(v@.skip(i as int), sep, cur@) == split_on(v@, sep),
        decreases v.len() - i,
    {
        let ghost rest = v@.skip(i as int);
        let ghost before = char_lists(pieces@);
        assert(rest.drop_first() =~= v@.skip(i + 1));
        if v[i] == sep {
            let ghost done = cur@;
            pieces.push(cur);
            cur = Vec::new();
            assert(char_lists(pieces@) =~= before.push(done));
            assert(char_lists(pieces@) + split_pieces(v@.skip(i + 1), sep, cur@) =~= before + (seq![done] + split_pieces(v@.skip(i + 1), sep, Seq::empty())));
        } else {
            cur.push(v[i]);
        }
        i = i + 1;
    }
    let ghost before = char_lists(pieces@);
    let ghost last = cur@;
    pieces.push(cur);
    assert(char_lists(pieces@) =~= before.push(last));
    pieces
}

/// The first position at or after `i` where `s` holds `c`.
pub open spec fn first_from(s: Seq<char>, c: char, i: int) -> Option<int>
    decreases s.len() - i,
{
    if i < 0 || i >= s.len() {
        None
    } else if s[i] == c {
        Some(i)
    } else {
        first_from(s, c, i + 1)
    }
}

/// The first position where `s` holds `c`.
pub open spec fn first_index(s: Seq<char>, c: char) -> Option<int> {
    first_from(s, c, 0)
}

pub fn find_char(v: &[char], c: char) -> (r: Option<usize>)
    ensures
        r matches Some(i) ==> first_index(v@, c) == Some(i as int) && i < v.len() && v@[i as int] == c,
        r is None ==> first_index(v@, c) is None,
{
    let mut i: usize = 0;
    while i < v.len()
        invariant
            i <= v.len(),
            first_from(v@, c, i as int) == first_index(v@, c),
        decreases v.len() - i,
    {
        if v[i] == c {
            return Some(i);
        }
        i = i + 1;
    }
    None
}

/// `s` with every leading and trailing `'` removed.
pub open spec fn unquoted(s: Seq<char>) -> Seq<char>
    decreases s.len(),
{
    if s.len() > 0 && s[0] == '\'' {
        unquoted(s.drop_first())
    } else if s.len() > 0 && s.last() == '\'' {
        unquoted(s.drop_last())
    } else {
        s
    }
}

pub fn strip_quotes(v: &[char]) -> (r: Vec<char>)
    ensures
        r@ == unquoted(v@),
{
    let mut lo: usize = 0;
    let mut hi: usize = v.len();
    assert(v@.subrange(0, hi as int) =~= v@);
    while lo < hi && v[lo] == '\''
        invariant
            lo <= hi == v.len(),
            unquoted(v@.subrange(lo as int, hi as int)) == unquoted(v@),
        decreases hi - lo,
    {
        assert(v@.subrange(lo as int, hi as int).drop_first() =~= v@.subrange(lo + 1, hi as int));
        lo = lo + 1;
    }
    while lo < hi && v[hi - 1] == '\''
        invariant
            lo <= hi <= v.len(),
            lo == hi || v@[lo as int] != '\'',
            unquoted(v@.subrange(lo as int, hi as int)) == unquoted(v@),
        decreases hi - lo,
    {
        assert(v@.subrange(lo as int, hi as int).drop_last() =~= v@.subrange(lo as int, hi - 1));
        hi = hi - 1;
    }
    slice_chars(v, lo, hi)
}

pub open spec fn is_digit(c: char) -> bool {
    '0' <= c && c <= '9'
}

/// The number that the decimal digits `s` write.
pub open spec fn digits_value(s: Seq<char>) -> int
    decreases s.len(),
{
    if s.len() == 0 {
        0
    } else {
        digits_value(s.drop_last()) * 10 + (s.last() as int - '0' as int)
    }
}

/// `s` without one leading `+`.
pub open spec fn unsigned_digits(s: Seq<char>) -> Seq<char> {
    if s.len() > 0 && s[0] == '+' {
        s.drop_first()
    } else {
        s
    }
}

pub open spec fn all_digits(s: Seq<char>) -> bool {
    forall|i: int| 0 <= i < s.len() ==> is_digit(#[trigger] s[i])
}

/// The number that `s` writes in decimal, with an optional leading `+`, if it
/// is at most `max`: how `str::parse` reads an unsigned integer.
pub open spec fn unsigned_value(s: Seq<char>, max: int) -> Option<int> {
    let d = unsigned_digits(s);
    if d.len() > 0 && all_digits(d) && digits_value(d) <= max {
        Some(digits_value(d))
    } else {
        None
    }
}

pub fn parse_unsigned(v: &[char], max: u32) -> (r: Option<u32>)
    ensures
        r matches Some(n) ==> unsigned_value(v@, max as int) == Some(n as int),
        r is None ==> unsigned_value(v@, max as int) is None,
{
    let start: usize = if v.len() > 0 && v[0] == '+' { 1 } else { 0 };
    let ghost d = v@.skip(start as int);
    assert(d =~= unsigned_digits(v@));
    if start >= v.len() {
        return None;
    }
    let mut acc: u64 = 0;
    let mut over = false;
    let mut i: usize = start;
    while i < v.len()
        invariant
            start <= i <= v.len(),
            d == v@.skip(start as int),
            d == unsigned_digits(v@),
            d.len() > 0,
            forall|k: int| 0 <= k < i - start ==> is_digit(#[trigger] d[k]),
            !over ==> acc as int == digits_value(d.take(i - start)) && acc <= max,
            over ==> digits_value(d.take(i - start)) > max,
        decreases v.len() - i,
    {
        let c = v[i];
        if !('0' <= c && c <= '9') {
            assert(!is_digit(d[i - start]));
            return None;
        }
        let ghost pre = d.take(i - start);
        assert(d.take(i - start + 1).drop_last() =~= pre);
        assert(digits_value(pre) >= 0) by { value_nonneg(pre); }
        if !over {
            let next = acc * 10 + (c as u64 - '0' as u64);
            if next > max as u64 {
                over = true;
            } else {
                acc = next;
            }
        }
        i = i + 1;
    }
    assert(d.take(i - start) =~= d);
    if over {
        None
    } else {
        Some(acc as u32)
    }
}

proof fn value_nonneg(s: Seq<char>)
    requires
        forall|i: int| 0 <= i < s.len() ==> is_digit(#[trigger] s[i]),
    ensures
        digits_value(s) >= 0,
    decreases s.len(),
{
    if s.len() > 0 {
        value_nonneg(s.drop_last());
    }
}

/// The four top-level tokens of a rule's text, once checked.
pub struct Components {
    pub variable: Variable,
    pub variable_target: Option<Seq<char>>,
    pub operator: Seq<char>,
    pub actions: Seq<char>,
}

/// The variable named by the second token `p`, `TYPE` or `TYPE:target`.
pub open spec fn variable_spec(p: Seq<char>) -> Result<(Variable, Option<Seq<char>>), ParseError> {
    match first_index(p, ':') {
        Some(i) => match variable_named(p.take(i)) {
            Some(v) => Ok((v, Some(p.skip(i + 1)))),
            None => Err(ParseError::InvalidVariable { value: p.take(i) }),
        },
        None => match variable_named(p) {
            Some(v) => Ok((v, None)),
            None => Err(ParseError::InvalidVariable { value: p }),
        },
    }
}

/// The checks on the text of a rule, up to its split into four tokens.
pub open spec fn validated(raw: Seq<char>) -> Result<Components, ParseError> {
    let parts = tokens(normalized(raw));
    if trimmed(raw).len() == 0 {
        Err(ParseError::EmptyRule)
    } else if parts.len() != 4 {
        Err(ParseError::InvalidFormat { expected: 4, found: parts.len() })
    } else if parts[0] != "SecRule"@ {
        Err(ParseError::InvalidDirective { found: parts[0] })
    } else if parts[1].len() == 0 {
        Err(ParseError::EmptyVariable)
    } else {
        match variable_spec(parts[1]) {
            Err(e) => Err(e),
            Ok((v, t)) => if parts[2].len() == 0 {
                Err(ParseError::EmptyOperator)
            } else if parts[3].len() == 0 {
                Err(ParseError::EmptyActions)
            } else {
                Ok(Components { variable: v, variable_target: t, operator: parts[2], actions: parts[3] })
            },
        }
    }
}

/// The operator named by the first word of `s`, and the rest of `s`,
/// trimmed, as its target.
pub open spec fn operator_spec(s: Seq<char>) -> Result<(Operator, Option<Seq<char>>), ParseError> {
    match first_index(s, ' ') {
        Some(i) => match operator_named(s.take(i)) {
            Some(op) => Ok((op, if trimmed(s.skip(i + 1)).len() == 0 { None } else { Some(trimmed(s.skip(i + 1))) })),
            None => Err(ParseError::InvalidOperator { value: s.take(i) }),
        },
        None => match operator_named(s) {
            Some(op) => Ok((op, None)),
            None => Err(ParseError::InvalidOperator { value: s }),
        },
    }
}

/// `rule` after one entry `item` of the action list.
pub open spec fn apply_action(rule: RuleSpec, item: Seq<char>) -> Result<RuleSpec, ParseError> {
    let a = trimmed(item);
    match first_index(a, ':') {
        Some(i) => {
            let key = a.take(i);
            let value = a.skip(i + 1);
            if key == "id"@ {
                match unsigned_value(value, u32::MAX as int) {
                    Some(n) => Ok(RuleSpec { id: n as u32, ..rule }),
                    None => Err(ParseError::InvalidRuleId { value }),
                }
            } else if key == "phase"@ {
                match unsigned_value(value, u8::MAX as int) {
                    Some(n) => match phase_numbered(n) {
                        Some(p) => Ok(RuleSpec { phase: p, ..rule }),
                        None => Err(ParseError::InvalidPhase { value }),
                    },
                    None => Err(ParseError::InvalidPhase { value }),
                }
            } else if key == "msg"@ {
                Ok(RuleSpec { message: Some(unquoted(value)), ..rule })
            } else if key == "severity"@ {
                match unsigned_value(value, u8::MAX as int) {
                    Some(n) => match severity_numbered(n) {
                        Some(sv) => Ok(RuleSpec { severity: Some(sv), ..rule }),
                        None => Err(ParseError::InvalidSeverity { value }),
                    },
                    None => Err(ParseError::InvalidSeverity { value }),
                }
            } else if key == "tag"@ {
                Ok(RuleSpec { tags: rule.tags.push(unquoted(value)), ..rule })
            } else if key == "t"@ {
                Ok(RuleSpec { transformations: rule.transformations.push(value), ..rule })
            } else {
                Err(ParseError::InvalidDirective { found: key })
            }
        },
        None => if a.len() == 0 {
            Ok(rule)
        } else {
            Ok(RuleSpec { action: a, ..rule })
        },
    }
}

/// `rule` after the entries `items` of the action list, in order; the first
/// entry that is rejected decides the outcome.
pub open spec fn apply_actions(rule: RuleSpec, items: Seq<Seq<char>>) -> Result<RuleSpec, ParseError>
    decreases items.len(),
{
    if items.len() == 0 {
        Ok(rule)
    } else {
        match apply_action(rule, items[0]) {
            Err(e) => Err(e),
            Ok(next) => apply_actions(next, items.drop_first()),
        }
    }
}

/// The rule that the text `raw` describes, or why it is rejected.
pub open spec fn parse_rule(raw: Seq<char>) -> Result<RuleSpec, ParseError> {
    match validated(raw) {
        Err(e) => Err(e),
        Ok(c) => match operator_spec(c.operator) {
            Err(e) => Err(e),
            Ok((op, target)) => apply_actions(
                RuleSpec {
                    variable: c.variable,
                    variable_target: c.variable_target,
                    operator: op,
                    operator_target: target,
                    ..default_rule()
                },
                split_on(c.actions, ','),
            ),
        },
    }
}

/// The view of an outcome whose success carries a value with a view.
pub open spec fn outcome<T: View>(r: Result<T, ValidationErrors>) -> Result<T::V, ParseError> {
    match r {
        Ok(v) => Ok(v@),
        Err(e) => Err(e@),
    }
}

/// The four top-level tokens of a rule's text, once checked.
#[derive(Debug)]
pub struct ValidatedSecRuleComponents {
    pub variable: Variable,
    pub variable_target: Option<String>,
    pub operator: String,
    pub actions_str: String,
}

impl View for ValidatedSecRuleComponents {
    type V = Components;

    open spec fn view(&self) -> Components {
        Components {
            variable: self.variable,
            variable_target: opt_text(self.variable_target),
            operator: self.operator@,
            actions: self.actions_str@,
        }
    }
}

/// The variable named by the second token, `TYPE` or `TYPE:target`.
fn parse_variable_token(p: &[char]) -> (r: Result<(Variable, Option<String>), ValidationErrors>)
    ensures
        match r {
            Ok((v, t)) => variable_spec(p@) == Ok::<_, ParseError>((v, opt_text(t))),
            Err(e) => variable_spec(p@) == Err::<(Variable, Option<Seq<char>>), _>(e@),
        },
{
    match find_char(p, ':') {
        Some(i) => {
            let var_type = string_of(&slice_chars(p, 0, i));
            assert(p@.subrange(0, i as int) =~= p@.take(i as int));
            match Variable::parse(var_type.as_str()) {
                Ok(v) => {
                    let target = string_of(&slice_chars(p, i + 1, p.len()));
                    assert(p@.subrange(i + 1, p@.len() as int) =~= p@.skip(i + 1));
                    Ok((v, Some(target)))
                },
                Err(_) => Err(ValidationErrors::InvalidVariable { value: var_type }),
            }
        },
        None => {
            let whole = string_of(p);
            match Variable::parse(whole.as_str()) {
                Ok(v) => Ok((v, None)),
                Err(_) => Err(ValidationErrors::InvalidVariable { value: whole }),
            }
        },
    }
}

/// Splits the text of a rule into its four tokens and checks the first
/// three of them.
pub fn validate_sec_rule(raw_sec_rule: String) -> (r: Result<ValidatedSecRuleComponents, ValidationErrors>)
    ensures
        outcome(r) == validated(raw_sec_rule@),
{
    let raw = chars_of(raw_sec_rule.as_str());
    if trim(&raw).len() == 0 {
        return Err(ValidationErrors::EmptyRule);
    }
    let norm = squeeze(&unescape(&raw));
    let parts = tokenize(&norm);
    let ghost gp = tokens(normalized(raw@));
    assert(parts@.len() == gp.len());
    if parts.len() != 4 {
        return Err(ValidationErrors::InvalidFormat { expected: 4, found: parts.len() });
    }
    assert(parts@[0]@ == gp[0] && parts@[1]@ == gp[1] && parts@[2]@ == gp[2] && parts@[3]@ == gp[3]);
    if !same_chars(&parts[0], "SecRule") {
        return Err(ValidationErrors::InvalidDirective { found: string_of(&parts[0]) });
    }
    if parts[1].len() == 0 {
        return Err(ValidationErrors::EmptyVariable);
    }
    let (variable, variable_target) = match parse_variable_token(&parts[1]) {
        Ok(vt) => vt,
        Err(e) => return Err(e),
    };
    if parts[2].len() == 0 {
        return Err(ValidationErrors::EmptyOperator);
    }
    if parts[3].len() == 0 {
        return Err(ValidationErrors::EmptyActions);
    }
    Ok(ValidatedSecRuleComponents {
        variable,
        variable_target,
        operator: string_of(&parts[2]),
        actions_str: string_of(&parts[3]),
    })
}

/// The view of the outcome of reading an operator token.
pub open spec fn operator_outcome(r: Result<(Operator, Option<String>), ValidationErrors>) -> Result<(Operator, Option<Seq<char>>), ParseError> {
    match r {
        Ok((op, t)) => Ok((op, opt_text(t))),
        Err(e) => Err(e@),
    }
}

/// Reads the operator token: the operator named by its first word, and the
/// rest, trimmed, as the operator's target.
pub fn parse_operator_string(operator_str: &str) -> (r: Result<(Operator, Option<String>), ValidationErrors>)
    ensures
        operator_outcome(r) == operator_spec(operator_str@),
{
    let s = chars_of(operator_str);
    match find_char(&s, ' ') {
        Some(i) => {
            let op_part = string_of(&slice_chars(&s, 0, i));
            assert(s@.subrange(0, i as int) =~= s@.take(i as int));
            match Operator::parse(op_part.as_str()) {
                Ok(op) => {
                    let target = trim(&slice_chars(&s, i + 1, s.len()));
                    assert(s@.subrange(i + 1, s@.len() as int) =~= s@.skip(i + 1));
                    if target.len() == 0 {
                        Ok((op, None))
                    } else {
                        Ok((op, Some(string_of(&target))))
                    }
                },
                Err(_) => Err(ValidationErrors::InvalidOperator { value: op_part }),
            }
        },
        None => match Operator::parse(operator_str) {
            Ok(op) => Ok((op, None)),
            Err(_) => Err(ValidationErrors::InvalidOperator { value: string_of(&s) }),
        },
    }
}

/// Applies one entry of the action list to `rule`.
fn apply_action_item(rule: &mut SecRule, item: &[char]) -> (r: Result<(), ValidationErrors>)
    ensures
        match r {
            Ok(_) => apply_action(old(rule)@, item@) == Ok::<_, ParseError>(final(rule)@),
            Err(e) => apply_action(old(rule)@, item@) == Err::<RuleSpec, _>(e@),
        },
{
    let a = trim(item);
    match find_char(&a, ':') {
        Some(i) => {
            let key = slice_chars(&a, 0, i);
            let value = slice_chars(&a, i + 1, a.len());
            assert(a@.subrange(0, i as int) =~= a@.take(i as int));
            assert(a@.subrange(i + 1, a@.len() as int) =~= a@.skip(i + 1));
            if same_chars(&key, "id") {
                match parse_unsigned(&value, u32::MAX) {
                    Some(n) => {
                        rule.id = n;
                    },
                    None => return Err(ValidationErrors::InvalidRuleId { value: string_of(&value) }),
                }
            } else if same_chars(&key, "phase") {
                match parse_unsigned(&value, 255) {
                    Some(n) => match Phase::from_u8(n as u8) {
                        Some(p) => {
                            rule.phase = p;
                        },
                        None => return Err(ValidationErrors::InvalidPhase { value: string_of(&value) }),
                    },
                    None => return Err(ValidationErrors::InvalidPhase { value: string_of(&value) }),
                }
            } else if same_chars(&key, "msg") {
                rule.message = Some(string_of(&strip_quotes(&value)));
            } else if same_chars(&key, "severity") {
                match parse_unsigned(&value, 255) {
                    Some(n) => match Severity::from_u8(n as u8) {
                        Some(sv) => {
                            rule.severity = Some(sv);
                        },
                        None => return Err(ValidationErrors::InvalidSeverity { value: string_of(&value) }),
                    },
                    None => return Err(ValidationErrors::InvalidSeverity { value: string_of(&value) }),
                }
            } else if same_chars(&key, "tag") {
                let tag = string_of(&strip_quotes(&value));
                let ghost tags = rule.tags@;
                rule.tags.push(tag);
                assert(texts(rule.tags@) =~= texts(tags).push(tag@));
            } else if same_chars(&key, "t") {
                let t = string_of(&value);
                let ghost ts = rule.transformations@;
                rule.transformations.push(t);
                assert(texts(rule.transformations@) =~= texts(ts).push(t@));
            } else {
                return Err(ValidationErrors::InvalidDirective { found: string_of(&key) });
            }
        },
        None => {
            if a.len() > 0 {
                rule.action = string_of(&a);
            }
        },
    }
    Ok(())
}

/// Reads the text of a `SecRule` directive into a rule: exactly the rule that
/// `parse_rule` describes, or the first reason it gives for rejecting the text.
pub fn parse_sec_rule(raw_sec_rule: String) -> (r: Result<SecRule, ValidationErrors>)
    ensures
        outcome(r) == parse_rule(raw_sec_rule@),
{
    let ghost raw = raw_sec_rule@;
    let components = match validate_sec_rule(raw_sec_rule) {
        Ok(c) => c,
        Err(e) => return Err(e),
    };
    let (operator, operator_target) = match parse_operator_string(components.operator.as_str()) {
        Ok(ot) => ot,
        Err(e) => return Err(e),
    };
    let mut rule = SecRule {
        id: 0,
        phase: Phase::RequestHeaders,
        action: String::new(),
        operator,
        operator_target,
        variable: components.variable,
        variable_target: components.variable_target,
        pattern: String::new(),
        transformations: Vec::new(),
        tags: Vec::new(),
        message: None,
        severity: None,
        chain: false,
    };
    let ghost start = rule@;
    assert(start.transformations =~= Seq::<Seq<char>>::empty());
    assert(start.tags =~= Seq::<Seq<char>>::empty());
    let actions = chars_of(components.actions_str.as_str());
    let items = split_chars(&actions, ',');
    let ghost all = char_lists(items@);
    let mut i: usize = 0;
    assert(all.skip(0) =~= all);
    assert(apply_actions(start, all) == parse_rule(raw));
    while i < items.len()
        invariant
            i <= items.len(),
            all == char_lists(items@),
            apply_actions(rule@, all.skip(i as int)) == apply_actions(start, all),
            apply_actions(start, all) == parse_rule(raw),
            raw == raw_sec_rule@,
        decreases items.len() - i,
    {
        let ghost rest = all.skip(i as int);
        assert(rest.drop_first() =~= all.skip(i + 1));
        assert(rest[0] == items@[i as int]@);
        let ghost before = rule@;
        match apply_action_item(&mut rule, &items[i]) {
            Ok(_) => {},
            Err(e) => {
                assert(apply_actions(before, rest) == Err::<RuleSpec, _>(e@));
                return Err(e);
            },
        }
        i = i + 1;
    }
    Ok(rule)
}

/// Parsing is a function of the text: the same text always gives the same
/// rule, or the same rejection.
pub proof fn parse_is_deterministic(a: Seq<char>, b: Seq<char>)
    requires
        a == b,
    ensures
        parse_rule(a) == parse_rule(b),
{
}

/// Every parsed rule has a phase numbered 1 to 5 and, if it has a severity,
/// one numbered 0 to 7.
pub proof fn parsed_numbers_in_range(raw: Seq<char>)
    ensures
        parse_rule(raw) matches Ok(rule) ==> 1 <= rule.phase.number() <= 5,
        parse_rule(raw) matches Ok(rule) ==> (rule.severity matches Some(sv) ==> sv.number() <= 7),
{
}

/// An entry `key:value` of the action list whose key has no `:`.
proof fn split_keyed_entry(key: Seq<char>, value: Seq<char>)
    requires
        first_index(key, ':') is None,
    ensures
        first_index(key + ":"@ + value, ':') == Some(key.len() as int),
        (key + ":"@ + value).take(key.len() as int) == key,
        (key + ":"@ + value).skip(key.len() as int + 1) == value,
{
    reveal_strlit(":");
    let s = key + ":"@ + value;
    assert(s.take(key.len() as int) =~= key);
    assert(s.skip(key.len() as int + 1) =~= value);
    assert(s[key.len() as int] == ':');
    colon_after_key(key, value, 0);
}

proof fn colon_after_key(key: Seq<char>, value: Seq<char>, i: int)
    requires
        0 <= i <= key.len(),
        first_from(key, ':', i) is None,
    ensures
        first_from(key + ":"@ + value, ':', i) == Some(key.len() as int),
    decreases key.len() - i,
{
    reveal_strlit(":");
    let s = key + ":"@ + value;
    if i < key.len() {
        assert(s[i] == key[i]);
        colon_after_key(key, value, i + 1);
    } else {
        assert(s[key.len() as int] == ':');
    }
}

/// An action entry that no earlier entry hides makes the whole action list
/// fail, whatever rule it is applied to.
proof fn failing_entry_fails_list(rule: RuleSpec, items: Seq<Seq<char>>, k: int)
    requires
        0 <= k < items.len(),
        forall|r: RuleSpec| #[trigger] apply_action(r, items[k]) is Err,
    ensures
        apply_actions(rule, items) is Err,
    decreases k,
{
    if k > 0 {
        if let Ok(next) = apply_action(rule, items[0]) {
            assert(items.drop_first()[k - 1] == items[k]);
            failing_entry_fails_list(next, items.drop_first(), k - 1);
        }
    } else {
        assert(apply_action(rule, items[0]) is Err);
    }
}

/// A `phase` entry whose value is not a number from 1 to 5 is rejected with
/// `InvalidPhase`, carrying the value; a rule text whose action list holds
/// such an entry does not parse.
pub proof fn phase_outside_range_rejected(rule: RuleSpec, item: Seq<char>, value: Seq<char>)
    requires
        trimmed(item) == "phase:"@ + value,
        unsigned_value(value, u8::MAX as int) matches Some(n) ==> !(1 <= n <= 5),
    ensures
        apply_action(rule, item) == Err::<RuleSpec, _>(ParseError::InvalidPhase { value }),
        forall|raw: Seq<char>| #[trigger] validated(raw) matches Ok(c)
            && operator_spec(c.operator) is Ok && split_on(c.actions, ',').contains(item)
            ==> parse_rule(raw) is Err,
{
    reveal_strlit("phase:");
    reveal_strlit("phase");
    assert("phase:"@ =~= "phase"@ + ":"@) by { reveal_strlit(":"); }
    assert(first_index("phase"@, ':') is None) by {
        assert(first_from("phase"@, ':', 5) is None);
        assert(first_from("phase"@, ':', 4) is None);
        assert(first_from("phase"@, ':', 3) is None);
        assert(first_from("phase"@, ':', 2) is None);
        assert(first_from("phase"@, ':', 1) is None);
    }
    split_keyed_entry("phase"@, value);
    assert("phase"@ + ":"@ + value =~= "phase:"@ + value);
    reveal_strlit("id");
    assert("phase"@ != "id"@);
    assert(apply_action(rule, item) == Err::<RuleSpec, _>(ParseError::InvalidPhase { value }));
    assert(forall|r: RuleSpec| #[trigger] apply_action(r, item) is Err);
    assert forall|raw: Seq<char>| #[trigger] validated(raw) matches Ok(c)
        && operator_spec(c.operator) is Ok && split_on(c.actions, ',').contains(item)
        implies parse_rule(raw) is Err by {
        let c = validated(raw)->Ok_0;
        let items = split_on(c.actions, ',');
        let k = choose|k: int| 0 <= k < items.len() && items[k] == item;
        let (op, target) = operator_spec(c.operator)->Ok_0;
        failing_entry_fails_list(
            RuleSpec {
                variable: c.variable,
                variable_target: c.variable_target,
                operator: op,
                operator_target: target,
                ..default_rule()
            },
            items,
            k,
        );
    }
}

/// A `severity` entry whose value is not a number from 0 to 7 is rejected
/// with `InvalidSeverity`, carrying the value; a rule text whose action list
/// holds such an entry does not parse.
pub proof fn severity_outside_range_rejected(rule: RuleSpec, item: Seq<char>, value: Seq<char>)
    requires
        trimmed(item) == "severity:"@ + value,
        unsigned_value(value, u8::MAX as int) matches Some(n) ==> n > 7,
    ensures
        apply_action(rule, item) == Err::<RuleSpec, _>(ParseError::InvalidSeverity { value }),
        forall|raw: Seq<char>| #[trigger] validated(raw) matches Ok(c)
            && operator_spec(c.operator) is Ok && split_on(c.actions, ',').contains(item)
            ==> parse_rule(raw) is Err,
{
    reveal_strlit("severity:");
    reveal_strlit("severity");
    assert("severity:"@ =~= "severity"@ + ":"@) by { reveal_strlit(":"); }
    assert(first_index("severity"@, ':') is None) by {
        let k = "severity"@;
        assert(first_from(k, ':', 8) is None);
        assert(first_from(k, ':', 7) is None);
        assert(first_from(k, ':', 6) is None);
        assert(first_from(k, ':', 5) is None);
        assert(first_from(k, ':', 4) is None);
        assert(first_from(k, ':', 3) is None);
        assert(first_from(k, ':', 2) is None);
        assert(first_from(k, ':', 1) is None);
    }
    split_keyed_entry("severity"@, value);
    assert("severity"@ + ":"@ + value =~= "severity:"@ + value);
    reveal_strlit("id");
    reveal_strlit("phase");
    reveal_strlit("msg");
    assert("severity"@ != "id"@ && "severity"@ != "phase"@ && "severity"@ != "msg"@);
    if let Some(n) = unsigned_value(value, u8::MAX as int) {
        assert(severity_numbered(n) is None);
    }
    assert(apply_action(rule, item) == Err::<RuleSpec, _>(ParseError::InvalidSeverity { value }));
    assert(forall|r: RuleSpec| #[trigger] apply_action(r, item) is Err);
    assert forall|raw: Seq<char>| #[trigger] validated(raw) matches Ok(c)
        && operator_spec(c.operator) is Ok && split_on(c.actions, ',').contains(item)
        implies parse_rule(raw) is Err by {
        let c = validated(raw)->Ok_0;
        let items = split_on(c.actions, ',');
        let k = choose|k: int| 0 <= k < items.len() && items[k] == item;
        let (op, target) = operator_spec(c.operator)->Ok_0;
        failing_entry_fails_list(
            RuleSpec {
                variable: c.variable,
                variable_target: c.variable_target,
                operator: op,
                operator_target: target,
                ..default_rule()
            },
            items,
            k,
        );
    }
}

} // verus!
