//! HTTP proxy rules: rewrite, block or mock requests whose URL matches a
//! glob. The first matching rule wins.
use crate::cef::resource::{make_handler_with_headers, SyntheticResource};
use crate::text::{bytes_of, clone_pairs, pairs_view, chars_of, eq_ignore_ascii_case, eq_ignore_ascii_case_exec, has_prefix, push_all, slice_chars, starts_with, string_of};
use globset::{Glob, GlobSet};
use vstd::prelude::*;

verus! {

/// Declares `globset::Glob`, a compiled glob pattern, as an opaque type.
#[verifier::external_type_specification]
#[verifier::external_body]
pub struct ExGlob(Glob);

/// Declares `globset::GlobSet`, a set of globs matched together, as an
/// opaque type.
#[verifier::external_type_specification]
#[verifier::external_body]
pub struct ExGlobSet(GlobSet);

/// The pattern text a `Glob` was built from.
pub uninterp spec fn glob_text(g: Glob) -> Seq<char>;

/// The error text `Glob::new` reports for `pattern`; `None` when it accepts it.
pub uninterp spec fn glob_parse_error(pattern: Seq<char>) -> Option<Seq<char>>;

/// The patterns a `GlobSet` was built from, in order.
pub uninterp spec fn glob_set_patterns(set: GlobSet) -> Seq<Seq<char>>;

/// The error text `GlobSet::new` reports for globs with these patterns;
/// `None` when it builds the set.
pub uninterp spec fn glob_set_build_error(patterns: Seq<Seq<char>>) -> Option<Seq<char>>;

/// The positions of the patterns that `GlobSet::matches` reports as matching
/// `path`.
pub uninterp spec fn glob_set_matches(patterns: Seq<Seq<char>>, path: Seq<char>) -> Seq<usize>;

/// Text that globset reads the same way on every platform: it holds no
/// `\`, which Windows takes as a path separator (in paths) and not as an
/// escape (in patterns).
pub open spec fn portable(s: Seq<char>) -> bool {
    !s.contains('\\')
}

/// Every pattern in `patterns` is portable.
pub open spec fn all_portable(patterns: Seq<Seq<char>>) -> bool {
    forall|i: int| 0 <= i < patterns.len() ==> #[trigger] portable(patterns[i])
}

/// Calls `globset::Glob::new`. On success the glob keeps the pattern text it
/// was built from (its `glob()`); on failure the error is the rendered
/// `globset::Error`. Which portable patterns are accepted is left to the
/// name `glob_parse_error`; for a pattern holding `\` it is not stated, as
/// it depends on the platform.
#[verifier::external_body]
fn glob_new(pattern: &str) -> (r: Result<Glob, String>)
    ensures
        match r {
            Ok(g) => glob_text(g) == pattern@ && (portable(pattern@) ==> glob_parse_error(pattern@) is None),
            Err(e) => portable(pattern@) ==> glob_parse_error(pattern@) == Some(e@),
        },
{
    match Glob::new(pattern) {
        Ok(g) => Ok(g),
        Err(e) => Err(e.to_string()),
    }
}

/// The pattern texts of a list of globs.
pub open spec fn glob_texts(globs: Seq<Glob>) -> Seq<Seq<char>> {
    globs.map_values(|g: Glob| glob_text(g))
}

/// Calls `globset::GlobSet::new` (what `GlobSetBuilder::build` runs on the
/// globs added to it). On success the set holds the globs' patterns in
/// order; on failure the error is the rendered `globset::Error`. When the
/// build of portable patterns fails is left to the name
/// `glob_set_build_error`; for other patterns it is not stated.
#[verifier::external_body]
fn glob_set_new(globs: Vec<Glob>) -> (r: Result<GlobSet, String>)
    ensures
        match r {
            Ok(set) => glob_set_patterns(set) == glob_texts(globs@) && (all_portable(glob_texts(globs@))
                ==> glob_set_build_error(glob_texts(globs@)) is None),
            Err(e) => all_portable(glob_texts(globs@)) ==> glob_set_build_error(glob_texts(globs@)) == Some(
                e@,
            ),
        },
{
    match GlobSet::new(globs) {
        Ok(set) => Ok(set),
        Err(e) => Err(e.to_string()),
    }
}

/// Calls `globset::GlobSet::matches`. The source sorts and deduplicates the
/// positions it reports, and each is the position of one of the set's
/// patterns; which portable patterns match a portable path is left to the
/// name `glob_set_matches`, and is not stated otherwise.
#[verifier::external_body]
fn glob_set_matches_exec(set: &GlobSet, path: &str) -> (r: Vec<usize>)
    ensures
        portable(path@) && all_portable(glob_set_patterns(*set)) ==> r@ == glob_set_matches(
            glob_set_patterns(*set),
            path@,
        ),
        forall|i: int, j: int| 0 <= i < j < r@.len() ==> r@[i] < r@[j],
        forall|i: int| 0 <= i < r@.len() ==> r@[i] < glob_set_patterns(*set).len(),
{
    set.matches(path)
}

/// One proxy rule: requests whose URL matches `pattern` are blocked
/// (`block`), redirected (`to` replaces the pattern's literal prefix), left
/// alone (`pass`), or answered with a mock response (`status`, `body`,
/// `headers`).
pub struct ProxyRule {
    pub pattern: String,
    pub to: Option<String>,
    pub pass: Option<bool>,
    pub block: Option<bool>,
    pub status: Option<u32>,
    pub body: Option<String>,
    pub headers: Option<Vec<(String, String)>>,
}

/// The patterns of a list of rules.
pub open spec fn rule_patterns(rules: Seq<ProxyRule>) -> Seq<Seq<char>> {
    rules.map_values(|r: ProxyRule| r.pattern@)
}

/// The first rule (in order) whose pattern fails to parse, with its error.
pub open spec fn first_pattern_error(patterns: Seq<Seq<char>>) -> Option<Seq<char>>
    decreases patterns.len(),
{
    if patterns.len() == 0 {
        None
    } else {
        match first_pattern_error(patterns.drop_last()) {
            Some(e) => Some(e),
            None => glob_parse_error(patterns.last()),
        }
    }
}

/// The error `Compiled::from_rules` reports for these patterns, if any:
/// the first pattern that does not parse, else a failure to build the set.
pub open spec fn rules_error(patterns: Seq<Seq<char>>) -> Option<Seq<char>> {
    match first_pattern_error(patterns) {
        Some(e) => Some(e),
        None => glob_set_build_error(patterns),
    }
}

/// A list of rules with their patterns compiled into one glob set.
pub struct Compiled {
    rules: Vec<ProxyRule>,
    set: GlobSet,
}

impl Compiled {
    #[verifier::type_invariant]
    spec fn wf(self) -> bool {
        glob_set_patterns(self.set) == rule_patterns(self.rules@)
    }

    /// The rules, in order.
    pub closed spec fn rules(&self) -> Seq<ProxyRule> {
        self.rules@
    }

    /// Positions of the rules whose pattern matches `url`, ascending.
    pub open spec fn matching(&self, url: Seq<char>) -> Seq<usize> {
        glob_set_matches(rule_patterns(self.rules()), url)
    }

    /// `url` and every pattern are portable, so which rules match `url` is
    /// the same on every platform.
    pub open spec fn portable_for(&self, url: Seq<char>) -> bool {
        portable(url) && all_portable(rule_patterns(self.rules()))
    }

    /// The rule that applies to `url`: the first one whose pattern matches.
    pub open spec fn first_match_spec(&self, url: Seq<char>) -> Option<ProxyRule> {
        if self.matching(url).len() > 0 {
            Some(self.rules()[self.matching(url)[0] as int])
        } else {
            None
        }
    }

    /// Compiles the rules' patterns. Fails with the error of the first
    /// pattern that does not parse, or with the glob set's build error.
    pub fn from_rules(rules: Vec<ProxyRule>) -> (r: Result<Compiled, String>)
        ensures
            match r {
                Ok(c) => c.rules() == rules@ && (all_portable(rule_patterns(rules@)) ==> rules_error(
                    rule_patterns(rules@),
                ) is None),
                Err(e) => all_portable(rule_patterns(rules@)) ==> rules_error(rule_patterns(rules@)) == Some(
                    e@,
                ),
            },
    {
        let mut globs: Vec<Glob> = Vec::new();
        let mut i: usize = 0;
        while i < rules.len()
            invariant
                i <= rules@.len(),
                glob_texts(globs@) == rule_patterns(rules@.take(i as int)),
                all_portable(rule_patterns(rules@)) ==> first_pattern_error(rule_patterns(rules@.take(i as int)))
                    is None,
            decreases rules.len() - i,
        {
            proof {
                assert(rules@.take(i + 1) == rules@.take(i as int).push(rules@[i as int]));
                assert(rule_patterns(rules@.take(i + 1)).drop_last() == rule_patterns(rules@.take(i as int)));
                assert(rule_patterns(rules@.take(i + 1)).last() == rules@[i as int].pattern@);
            }
            match glob_new(rules[i].pattern.as_str()) {
                Ok(g) => {
                    let ghost before = globs@;
                    globs.push(g);
                    assert(glob_texts(globs@) =~= glob_texts(before).push(glob_text(g)));
                },
                Err(e) => {
                    proof {
                        if all_portable(rule_patterns(rules@)) {
                            assert(portable(rule_patterns(rules@)[i as int]));
                            assert(rule_patterns(rules@).take(i + 1) == rule_patterns(rules@.take(i + 1)));
                            lemma_first_error_prefix(rule_patterns(rules@), (i + 1) as nat);
                        }
                    }
                    return Err(e);
                },
            }
            i = i + 1;
        }
        proof {
            assert(rules@.take(rules@.len() as int) == rules@);
        }
        match glob_set_new(globs) {
            Ok(set) => Ok(Compiled { rules, set }),
            Err(e) => Err(e),
        }
    }

    /// The first rule (in order) whose pattern matches `url`.
    pub fn first_match(&self, url: &str) -> (r: Option<&ProxyRule>)
        ensures
            self.portable_for(url@) ==> match self.first_match_spec(url@) {
                Some(rule) => r == Some(&rule),
                None => r is None,
            },
            self.portable_for(url@) ==> forall|j: int|
                0 <= j < self.matching(url@).len() ==> self.matching(url@)[0] <= #[trigger] self.matching(
                    url@,
                )[j],
            self.portable_for(url@) ==> forall|j: int|
                0 <= j < self.matching(url@).len() ==> #[trigger] self.matching(url@)[j] < self.rules().len(),
            r matches Some(rule) ==> exists|i: int| 0 <= i < self.rules().len() && *rule == #[trigger] self.rules()[i],
    {
        proof {
            use_type_invariant(self);
        }
        let m = glob_set_matches_exec(&self.set, url);
        rule_for_matches(&self.rules, &m)
    }
}

/// Once a prefix of the patterns has a parse error, the whole list reports
/// that same (first) error.
proof fn lemma_first_error_prefix(patterns: Seq<Seq<char>>, k: nat)
    requires
        k <= patterns.len(),
        first_pattern_error(patterns.take(k as int)) is Some,
    ensures
        first_pattern_error(patterns) == first_pattern_error(patterns.take(k as int)),
    decreases patterns.len() - k,
{
    if k < patterns.len() {
        assert(patterns.take((k + 1) as int).drop_last() == patterns.take(k as int));
        assert(first_pattern_error(patterns.take((k + 1) as int)) == first_pattern_error(patterns.take(k as int)));
        lemma_first_error_prefix(patterns, k + 1);
    } else {
        assert(patterns.take(k as int) == patterns);
    }
}

/// The rule at the first (lowest) of the matching positions `matches`.
pub fn rule_for_matches<'a>(rules: &'a Vec<ProxyRule>, matches: &Vec<usize>) -> (r: Option<&'a ProxyRule>)
    requires
        forall|i: int| 0 <= i < matches@.len() ==> matches@[i] < rules@.len(),
    ensures
        match r {
            Some(rule) => matches@.len() > 0 && *rule == rules@[matches@[0] as int],
            None => matches@.len() == 0,
        },
{
    if matches.len() == 0 {
        None
    } else {
        Some(&rules[matches[0]])
    }
}

/// Glob metacharacters: where the literal prefix of a pattern ends.
pub open spec fn is_glob_meta(c: char) -> bool {
    c == '*' || c == '?' || c == '[' || c == '{'
}

/// The part of a pattern before its first glob metacharacter.
pub open spec fn literal_prefix(pattern: Seq<char>) -> Seq<char>
    decreases pattern.len(),
{
    if pattern.len() == 0 || is_glob_meta(pattern[0]) {
        Seq::<char>::empty()
    } else {
        seq![pattern[0]] + literal_prefix(pattern.drop_first())
    }
}

/// The URL a redirect rule sends `url` to: the pattern's literal prefix is
/// replaced by `to`; a URL that does not start with that prefix is kept.
pub open spec fn rewrite_url_spec(pattern: Seq<char>, to: Seq<char>, url: Seq<char>) -> Seq<char> {
    let prefix = literal_prefix(pattern);
    if has_prefix(url, prefix) {
        to + url.skip(prefix.len() as int)
    } else {
        url
    }
}

/// Replaces the literal prefix of `pattern` at the start of `url` by `to`.
pub fn rewrite_url(pattern: &str, to: &str, url: &str) -> (r: String)
    ensures
        r@ == rewrite_url_spec(pattern@, to@, url@),
{
    let p = chars_of(pattern);
    let mut k: usize = 0;
    assert(p@.skip(0) == p@ && p@.take(0) + p@ == p@);
    while k < p.len() && !(p[k] == '*' || p[k] == '?' || p[k] == '[' || p[k] == '{')
        invariant
            k <= p@.len(),
            literal_prefix(p@) == p@.take(k as int) + literal_prefix(p@.skip(k as int)),
        decreases p.len() - k,
    {
        assert(p@.skip(k as int).drop_first() == p@.skip(k + 1));
        assert(p@.take(k + 1) == p@.take(k as int) + seq![p@[k as int]]);
        k = k + 1;
    }
    proof {
        if k == p.len() {
            assert(p@.skip(k as int).len() == 0);
        }
        assert(literal_prefix(p@.skip(k as int)) == Seq::<char>::empty());
        assert(literal_prefix(p@) == p@.take(k as int));
    }
    let prefix = slice_chars(&p, 0, k);
    let u = chars_of(url);
    if starts_with(&u, &prefix) {
        let mut out = chars_of(to);
        let rest = slice_chars(&u, prefix.len(), u.len());
        push_all(&mut out, &rest);
        string_of(&out)
    } else {
        string_of(&u)
    }
}

/// The value of the first header named `content-type` (any ASCII case),
/// else `text/plain`.
pub open spec fn mime_of_spec(headers: Seq<(Seq<char>, Seq<char>)>) -> Seq<char>
    decreases headers.len(),
{
    if headers.len() == 0 {
        "text/plain"@
    } else if eq_ignore_ascii_case(headers[0].0, "content-type"@) {
        headers[0].1
    } else {
        mime_of_spec(headers.drop_first())
    }
}

/// The MIME type a mock response declares through its headers.
pub fn mime_of(headers: &Vec<(String, String)>) -> (r: String)
    ensures
        r@ == mime_of_spec(headers@.map_values(|p: (String, String)| (p.0@, p.1@))),
{
    let ghost hv = headers@.map_values(|p: (String, String)| (p.0@, p.1@));
    let name = chars_of("content-type");
    let mut i: usize = 0;
    assert(hv.skip(0) == hv);
    while i < headers.len()
        invariant
            i <= headers@.len(),
            hv == headers@.map_values(|p: (String, String)| (p.0@, p.1@)),
            name@ == "content-type"@,
            mime_of_spec(hv) == mime_of_spec(hv.skip(i as int)),
        decreases headers.len() - i,
    {
        let k = chars_of(headers[i].0.as_str());
        assert(hv.skip(i as int)[0] == hv[i as int]);
        if eq_ignore_ascii_case_exec(&k, &name) {
            return headers[i].1.clone();
        }
        assert(hv.skip(i as int).drop_first() == hv.skip(i + 1));
        i = i + 1;
    }
    string_of(&chars_of("text/plain"))
}

/// What happens to a request before it is sent.
pub enum RequestAction {
    /// Send it as it is.
    Continue,
    /// Drop it.
    Cancel,
    /// Send it to this URL instead.
    Redirect(String),
}

/// What a request to `url` undergoes under `rule` (the rule that applies to
/// it, if any): blocked, redirected, or sent as it is.
pub open spec fn request_action_spec(rule: Option<ProxyRule>, url: Seq<char>) -> Option<Option<Seq<char>>> {
    match rule {
        None => Some(None),
        Some(r) => if r.block == Some(true) {
            None
        } else {
            match r.to {
                Some(to) => Some(Some(rewrite_url_spec(r.pattern@, to@, url))),
                None => Some(None),
            }
        },
    }
}

/// `r` carries out the fate `action` (`None`: cancel; `Some(None)`:
/// continue; `Some(Some(u))`: redirect to `u`).
pub open spec fn carries_out(r: RequestAction, action: Option<Option<Seq<char>>>) -> bool {
    match action {
        None => r is Cancel,
        Some(None) => r is Continue,
        Some(Some(u)) => r matches RequestAction::Redirect(v) && v@ == u,
    }
}

/// Decides the fate of a request to `url` before it loads: the first
/// matching rule blocks it, or redirects it when it has a `to`. Whatever
/// the platform, the fate is that of no rule or of one of the rules.
pub fn before_resource_load(compiled: &Compiled, url: &str) -> (r: RequestAction)
    ensures
        compiled.portable_for(url@) ==> carries_out(
            r,
            request_action_spec(compiled.first_match_spec(url@), url@),
        ),
        carries_out(r, request_action_spec(None, url@)) || exists|i: int|
            0 <= i < compiled.rules().len() && carries_out(
                r,
                request_action_spec(Some(#[trigger] compiled.rules()[i]), url@),
            ),
{
    let m = compiled.first_match(url);
    let r = action_for(m, url);
    proof {
        if let Some(rule) = m {
            let i = choose|i: int| 0 <= i < compiled.rules().len() && *rule == #[trigger] compiled.rules()[i];
            assert(carries_out(r, request_action_spec(Some(compiled.rules()[i]), url@)));
        }
    }
    r
}

/// The owned rule an optional reference points to.
pub open spec fn rule_of(rule: Option<&ProxyRule>) -> Option<ProxyRule> {
    match rule {
        Some(x) => Some(*x),
        None => None,
    }
}

/// The fate of a request to `url` under `rule` (the rule that applies to
/// it, if any): blocked, redirected, or sent as it is.
pub fn action_for(rule: Option<&ProxyRule>, url: &str) -> (r: RequestAction)
    ensures
        carries_out(r, request_action_spec(rule_of(rule), url@)),
{
    match rule {
        None => RequestAction::Continue,
        Some(rule) => {
            if rule.block == Some(true) {
                RequestAction::Cancel
            } else {
                match &rule.to {
                    Some(to) => RequestAction::Redirect(rewrite_url(rule.pattern.as_str(), to.as_str(), url)),
                    None => RequestAction::Continue,
                }
            }
        },
    }
}

/// The status of a mock response: the rule's status (200 when absent), or
/// 200 when it does not fit in 16 bits.
pub open spec fn mock_status(status: Option<u32>) -> u16 {
    let s: u32 = match status {
        Some(v) => v,
        None => 200,
    };
    if s <= u16::MAX {
        s as u16
    } else {
        200
    }
}

/// A rule answers with a mock response when it neither passes, blocks nor
/// redirects, and gives a status or a body.
pub open spec fn is_mock(rule: ProxyRule) -> bool {
    &&& rule.pass != Some(true)
    &&& rule.block != Some(true)
    &&& rule.to is None
    &&& (rule.status is Some || rule.body is Some)
}

/// `res` is the mock response of `rule`: the rule's body (empty when
/// absent) as bytes, its status, its headers, and the MIME type they name.
pub open spec fn is_mock_response(res: SyntheticResource, rule: ProxyRule) -> bool {
    &&& res.bytes@ == match rule.body {
        Some(b) => vstd::utf8::encode_utf8(b@),
        None => Seq::<u8>::empty(),
    }
    &&& res.status == mock_status(rule.status)
    &&& pairs_view(res.headers@) == match rule.headers {
        Some(h) => pairs_view(h@),
        None => Seq::empty(),
    }
    &&& res.mime@ == mime_of_spec(pairs_view(res.headers@))
    &&& res.pos == 0
}

/// The mock response that `rule` answers with.
pub fn mock_response(rule: &ProxyRule) -> (r: SyntheticResource)
    requires
        is_mock(*rule),
    ensures
        is_mock_response(r, *rule),
{
    let bytes: Vec<u8> = match &rule.body {
        Some(b) => bytes_of(b.as_str()),
        None => Vec::new(),
    };
    let s: u32 = match rule.status {
        Some(v) => v,
        None => 200,
    };
    let status: u16 = if s <= u16::MAX as u32 {
        s as u16
    } else {
        200
    };
    let headers: Vec<(String, String)> = match &rule.headers {
        Some(h) => clone_pairs(h),
        None => {
            let e: Vec<(String, String)> = Vec::new();
            assert(pairs_view(e@) =~= Seq::empty());
            e
        },
    };
    let mime = mime_of(&headers);
    assert(mime@ == mime_of_spec(pairs_view(headers@)));
    make_handler_with_headers(bytes, mime.as_str(), status, headers)
}

/// `r` is how `rule` (the rule that applies, if any) answers a request:
/// with its mock response when it is a mock rule, else not at all.
pub open spec fn answers(r: Option<SyntheticResource>, rule: Option<ProxyRule>) -> bool {
    match rule {
        Some(rule) => match r {
            Some(res) => is_mock(rule) && is_mock_response(res, rule),
            None => !is_mock(rule),
        },
        None => r is None,
    }
}

/// The mock response a request to `url` is answered with, if the rule that
/// applies to it is a mock rule. Whatever the platform, the answer is that
/// of no rule or of one of the rules.
pub fn resource_handler(compiled: &Compiled, url: &str) -> (r: Option<SyntheticResource>)
    ensures
        compiled.portable_for(url@) ==> answers(r, compiled.first_match_spec(url@)),
        answers(r, None) || exists|i: int|
            0 <= i < compiled.rules().len() && answers(r, Some(#[trigger] compiled.rules()[i])),
{
    let m = compiled.first_match(url);
    let r = answer_for(m);
    proof {
        if let Some(rule) = m {
            let i = choose|i: int| 0 <= i < compiled.rules().len() && *rule == #[trigger] compiled.rules()[i];
            assert(answers(r, Some(compiled.rules()[i])));
        }
    }
    r
}

/// How `rule` (the rule that applies to a request, if any) answers it: its
/// mock response when it is a mock rule, else nothing.
pub fn answer_for(rule: Option<&ProxyRule>) -> (r: Option<SyntheticResource>)
    ensures
        answers(r, rule_of(rule)),
{
    match rule {
        None => None,
        Some(rule) => {
            if rule.pass == Some(true) || rule.block == Some(true) || rule.to.is_some() {
                return None;
            }
            if rule.status.is_none() && rule.body.is_none() {
                return None;
            }
            Some(mock_response(rule))
        },
    }
}

/// A request that a rule answers with a mock response goes on unchanged
/// before it loads: it is neither blocked nor redirected.
pub proof fn law_mocked_requests_pass_unchanged(rule: ProxyRule, url: Seq<char>)
    requires
        is_mock(rule),
    ensures
        request_action_spec(Some(rule), url) == Some(None::<Seq<char>>),
{
}

/// A rule that blocks or redirects a request never answers it with a mock.
pub proof fn law_blocked_or_redirected_is_not_mocked(rule: ProxyRule, url: Seq<char>)
    requires
        request_action_spec(Some(rule), url) != Some(None::<Seq<char>>),
    ensures
        !is_mock(rule),
{
}

proof fn lemma_literal_prefix_of(lit: Seq<char>, rest: Seq<char>)
    requires
        forall|i: int|
            0 <= i < lit.len() ==> #[trigger] lit[i] != '*' && lit[i] != '?' && lit[i] != '[' && lit[i] != '{',
        rest.len() == 0 || rest[0] == '*' || rest[0] == '?' || rest[0] == '[' || rest[0] == '{',
    ensures
        literal_prefix(lit + rest) == lit,
    decreases lit.len(),
{
    if lit.len() == 0 {
        assert(lit + rest =~= rest);
    } else {
        let t = lit.drop_first();
        assert forall|i: int| 0 <= i < t.len() implies #[trigger] t[i] != '*' && t[i] != '?' && t[i] != '['
            && t[i] != '{' by {
            assert(t[i] == lit[i + 1]);
        }
        lemma_literal_prefix_of(t, rest);
        assert((lit + rest).drop_first() =~= t + rest);
        assert((lit + rest)[0] == lit[0]);
        assert(lit =~= seq![lit[0]] + t);
    }
}

/// A redirect swaps the pattern's literal start for `to`: for a pattern
/// made of a text `lit` holding no glob metacharacter (`*`, `?`, `[`,
/// `{`), alone or followed by one and anything after it, a URL `lit + s`
/// goes to `to + s`, and a URL that does not start with `lit` is kept.
pub proof fn law_redirect_replaces_literal_start(
    lit: Seq<char>,
    glob: Seq<char>,
    to: Seq<char>,
    s: Seq<char>,
    url: Seq<char>,
)
    requires
        forall|i: int|
            0 <= i < lit.len() ==> #[trigger] lit[i] != '*' && lit[i] != '?' && lit[i] != '[' && lit[i] != '{',
        glob.len() == 0 || glob[0] == '*' || glob[0] == '?' || glob[0] == '[' || glob[0] == '{',
    ensures
        rewrite_url_spec(lit + glob, to, lit + s) == to + s,
        !(lit.len() <= url.len() && url.take(lit.len() as int) == lit) ==> rewrite_url_spec(lit + glob, to, url)
            == url,
{
    lemma_literal_prefix_of(lit, glob);
    assert((lit + s).subrange(0, lit.len() as int) =~= lit);
    assert((lit + s).skip(lit.len() as int) =~= s);
    assert(url.take(lit.len() as int) == url.subrange(0, lit.len() as int));
}

} // verus!
