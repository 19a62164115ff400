//! Window -> profile rules for automatic profile switching.
//!
//! Each rule's `pattern` is a glob (`*` wildcard) tested case-insensitively
//! against the focused window's app-id; the first matching rule wins, and
//! `default` applies when none matches.
use vstd::prelude::*;
use vstd::string::StringSliceAdditionalSpecFns;
use vstd::utf8::encode_utf8;

verus! {

/// What `str::to_lowercase` returns for a string (Unicode lowercase mapping).
pub uninterp spec fn lowercase(s: Seq<char>) -> Seq<char>;

/// Lowercase a string with `str::to_lowercase`: the contract names its result
/// `lowercase` of the input; the Unicode case tables behind it are not stated.
#[verifier::external_body]
fn to_lowercase(s: &str) -> (r: String)
    ensures
        r@ == lowercase(s@),
{
    s.to_lowercase()
}

/// A single `*`-glob rule.
#[derive(Debug, Clone)]
pub struct Rule {
    /// Glob pattern (`*` wildcard) matched against the window app-id.
    pub pattern: String,
    /// Profile to apply when this rule matches.
    pub profile: String,
}

/// The rule set: ordered rules (first match wins) and an optional fallback.
#[derive(Debug, Clone)]
pub struct Rules {
    /// Profile applied when no rule matches.
    pub default: Option<String>,
    /// Ordered match rules; first match wins.
    pub rules: Vec<Rule>,
}

/// The `*` wildcard byte.
pub open spec fn star() -> u8 {
    0x2Au8
}

/// `p` matches `t` as a glob: `*` matches any run of bytes (including none) and
/// every other byte matches itself.
pub open spec fn glob(p: Seq<u8>, t: Seq<u8>) -> bool
    decreases p.len() + t.len(),
{
    if p.len() == 0 {
        t.len() == 0
    } else if p[0] == star() {
        glob(p.drop_first(), t) || (t.len() > 0 && glob(p, t.drop_first()))
    } else {
        t.len() > 0 && t[0] == p[0] && glob(p.drop_first(), t.drop_first())
    }
}

/// Glob matching of `p[i..]` against `t[j..]`.
fn glob_from(p: &[u8], t: &[u8], i: usize, j: usize) -> (r: bool)
    requires
        i <= p@.len(),
        j <= t@.len(),
    ensures
        r == glob(p@.subrange(i as int, p@.len() as int), t@.subrange(j as int, t@.len() as int)),
    decreases (p@.len() - i) + (t@.len() - j),
{
    let ghost ps = p@.subrange(i as int, p@.len() as int);
    let ghost ts = t@.subrange(j as int, t@.len() as int);
    if i == p.len() {
        return j == t.len();
    }
    if i + 1 <= p.len() {
        assert(ps.drop_first() =~= p@.subrange(i + 1, p@.len() as int));
    }
    if j < t.len() {
        assert(ts.drop_first() =~= t@.subrange(j + 1, t@.len() as int));
    }
    if p[i] == 0x2A {
        glob_from(p, t, i + 1, j) || (j < t.len() && glob_from(p, t, i, j + 1))
    } else {
        j < t.len() && t[j] == p[i] && glob_from(p, t, i + 1, j + 1)
    }
}

/// Minimal glob matcher supporting only the `*` wildcard (matches any run of
/// characters, including none), over the UTF-8 bytes of both strings. Inputs
/// are expected to be already lowercased.
pub fn glob_match(pattern: &str, text: &str) -> (r: bool)
    ensures
        r == glob(pattern.spec_bytes(), text.spec_bytes()),
{
    let p = pattern.as_bytes();
    let t = text.as_bytes();
    assert(p@.subrange(0, p@.len() as int) =~= p@);
    assert(t@.subrange(0, t@.len() as int) =~= t@);
    glob_from(p, t, 0, 0)
}

/// `p` holds no `*` wildcard.
pub open spec fn no_star(p: Seq<u8>) -> bool {
    forall|i: int| 0 <= i < p.len() ==> p[i] != star()
}

/// A lone `*` matches every text, the empty one included.
pub proof fn lemma_star_matches_all(t: Seq<u8>)
    ensures
        glob(seq![star()], t),
    decreases t.len(),
{
    let s = seq![star()];
    assert(s.drop_first() =~= Seq::<u8>::empty());
    assert(s[0] == star());
    if t.len() > 0 {
        lemma_star_matches_all(t.drop_first());
        assert(glob(s, t.drop_first()));
    } else {
        assert(glob(s.drop_first(), t));
    }
}

/// A leading `*` stands for any run of bytes: `*p` matches `t` exactly when
/// `p` matches some suffix of `t` (the whole of `t` included).
pub proof fn lemma_star_glob(p: Seq<u8>, t: Seq<u8>)
    ensures
        glob(seq![star()] + p, t) <==> exists|k: int|
            0 <= k <= t.len() && #[trigger] glob(p, t.subrange(k, t.len() as int)),
    decreases t.len(),
{
    let q = seq![star()] + p;
    assert(q.len() > 0);
    assert(q[0] == star());
    assert(q.drop_first() =~= p);
    assert(glob(q, t) == (glob(p, t) || (t.len() > 0 && glob(q, t.drop_first()))));
    assert(t.subrange(0, t.len() as int) =~= t);
    if glob(p, t) {
        assert(glob(p, t.subrange(0, t.len() as int)));
    }
    if t.len() > 0 {
        let u = t.drop_first();
        lemma_star_glob(p, u);
        if glob(q, u) {
            let k = choose|k: int| 0 <= k <= u.len() && #[trigger] glob(p, u.subrange(k, u.len() as int));
            assert(u.subrange(k, u.len() as int) =~= t.subrange(k + 1, t.len() as int));
            assert(glob(p, t.subrange(k + 1, t.len() as int)));
        }
        if exists|k: int| 0 <= k <= t.len() && #[trigger] glob(p, t.subrange(k, t.len() as int)) {
            let k = choose|k: int| 0 <= k <= t.len() && #[trigger] glob(p, t.subrange(k, t.len() as int));
            if k > 0 {
                assert(u.subrange(k - 1, u.len() as int) =~= t.subrange(k, t.len() as int));
                assert(glob(p, u.subrange(k - 1, u.len() as int)));
                assert(glob(q, u));
            }
        }
    } else {
        if exists|k: int| 0 <= k <= t.len() && #[trigger] glob(p, t.subrange(k, t.len() as int)) {
            let k = choose|k: int| 0 <= k <= t.len() && #[trigger] glob(p, t.subrange(k, t.len() as int));
            assert(k == 0);
        }
    }
}

/// A `*` after a literal prefix stands for any run of bytes, the empty run
/// included: `a*q` (with `a` free of `*`) matches `t` exactly when `t` starts
/// with `a` and `q` matches the rest of `t` from some point on.
pub proof fn lemma_mid_star_glob(a: Seq<u8>, q: Seq<u8>, t: Seq<u8>)
    requires
        no_star(a),
    ensures
        glob(a + seq![star()] + q, t) <==> (a.len() <= t.len() && t.subrange(0, a.len() as int) == a
            && exists|k: int|
            a.len() <= k <= t.len() && #[trigger] glob(q, t.subrange(k, t.len() as int))),
    decreases a.len(),
{
    let p = a + seq![star()] + q;
    if a.len() == 0 {
        assert(p =~= seq![star()] + q);
        lemma_star_glob(q, t);
        assert(t.subrange(0, 0) =~= a);
    } else {
        let a1 = a.drop_first();
        assert(no_star(a1));
        assert(p[0] == a[0]);
        assert(p[0] != star());
        assert(p.drop_first() =~= a1 + seq![star()] + q);
        if t.len() == 0 {
        } else {
            let u = t.drop_first();
            lemma_mid_star_glob(a1, q, u);
            let right = a.len() <= t.len() && t.subrange(0, a.len() as int) == a && exists|k: int|
                a.len() <= k <= t.len() && #[trigger] glob(q, t.subrange(k, t.len() as int));
            if glob(p, t) {
                assert(t[0] == a[0]);
                assert(glob(a1 + seq![star()] + q, u));
                let k = choose|k: int|
                    a1.len() <= k <= u.len() && #[trigger] glob(q, u.subrange(k, u.len() as int));
                assert(u.subrange(k, u.len() as int) =~= t.subrange(k + 1, t.len() as int));
                assert(glob(q, t.subrange(k + 1, t.len() as int)));
                assert(u.subrange(0, a1.len() as int) == a1);
                assert(t.subrange(0, a.len() as int) =~= seq![t[0]] + u.subrange(0, a1.len() as int));
                assert(a =~= seq![a[0]] + a1);
                assert(right);
            }
            if right {
                let k = choose|k: int|
                    a.len() <= k <= t.len() && #[trigger] glob(q, t.subrange(k, t.len() as int));
                assert(u.subrange(k - 1, u.len() as int) =~= t.subrange(k, t.len() as int));
                assert(glob(q, u.subrange(k - 1, u.len() as int)));
                assert(t.subrange(0, a.len() as int)[0] == t[0]);
                assert(a[0] == t[0]);
                assert(u.subrange(0, a1.len() as int) =~= t.subrange(0, a.len() as int).drop_first());
                assert(a1 =~= a.drop_first());
                assert(glob(a1 + seq![star()] + q, u));
                assert(glob(p, t));
            }
        }
    }
}

/// A pattern without `*` matches exactly the text equal to it.
pub proof fn lemma_literal_glob(p: Seq<u8>, t: Seq<u8>)
    requires
        no_star(p),
    ensures
        glob(p, t) <==> p == t,
    decreases p.len() + t.len(),
{
    if p.len() == 0 {
        if t.len() == 0 {
            assert(p =~= t);
        }
    } else {
        assert(no_star(p.drop_first()));
        if t.len() > 0 {
            lemma_literal_glob(p.drop_first(), t.drop_first());
        }
        if t.len() > 0 && t[0] == p[0] && p.drop_first() == t.drop_first() {
            assert(p =~= seq![p[0]] + p.drop_first());
            assert(t =~= seq![t[0]] + t.drop_first());
        }
        if p == t {
            assert(p.drop_first() =~= t.drop_first());
        }
    }
}

/// A pattern `p*` with no other wildcard matches exactly the texts that start
/// with `p`.
pub proof fn lemma_prefix_glob(p: Seq<u8>, t: Seq<u8>)
    requires
        no_star(p),
    ensures
        glob(p.push(star()), t) <==> (p.len() <= t.len() && t.subrange(0, p.len() as int) == p),
    decreases p.len() + t.len(),
{
    let q = p.push(star());
    if p.len() == 0 {
        assert(q =~= seq![star()]);
        lemma_star_matches_all(t);
        assert(t.subrange(0, 0) =~= p);
    } else {
        assert(q[0] == p[0]);
        assert(q.drop_first() =~= p.drop_first().push(star()));
        assert(no_star(p.drop_first()));
        if t.len() > 0 {
            lemma_prefix_glob(p.drop_first(), t.drop_first());
            if p.len() <= t.len() && t.subrange(0, p.len() as int) == p {
                assert(t.drop_first().subrange(0, p.len() - 1) =~= p.drop_first()) by {
                    assert forall|i: int| 0 <= i < p.len() - 1 implies t.drop_first().subrange(
                        0,
                        p.len() - 1,
                    )[i] == p.drop_first()[i] by {
                        assert(t.subrange(0, p.len() as int)[i + 1] == p[i + 1]);
                    }
                }
            }
            if t[0] == p[0] && p.len() - 1 <= t.len() - 1 && t.drop_first().subrange(
                0,
                p.len() - 1,
            ) == p.drop_first() {
                assert(t.subrange(0, p.len() as int) =~= p) by {
                    assert forall|i: int| 0 <= i < p.len() implies t.subrange(0, p.len() as int)[i]
                        == p[i] by {
                        if i > 0 {
                            assert(t.drop_first().subrange(0, p.len() - 1)[i - 1] == p.drop_first()[i
                                - 1]);
                        }
                    }
                }
            }
        }
    }
}

/// A pattern `*p` with no other wildcard matches exactly the texts that end
/// with `p`.
pub proof fn lemma_suffix_glob(p: Seq<u8>, t: Seq<u8>)
    requires
        no_star(p),
    ensures
        glob(seq![star()] + p, t) <==> (p.len() <= t.len() && t.subrange(
            t.len() - p.len(),
            t.len() as int,
        ) == p),
    decreases t.len(),
{
    let q = seq![star()] + p;
    assert(q[0] == star());
    assert(q.drop_first() =~= p);
    lemma_literal_glob(p, t);
    if t.len() > 0 {
        lemma_suffix_glob(p, t.drop_first());
        if p.len() <= t.len() - 1 {
            assert(t.drop_first().subrange(t.len() - 1 - p.len(), t.len() - 1) =~= t.subrange(
                t.len() - p.len(),
                t.len() as int,
            ));
        }
    }
    if p.len() == t.len() {
        assert(t.subrange(0, t.len() as int) =~= t);
    }
}

/// The UTF-8 bytes of the lowercase form of a string.
pub open spec fn folded(s: Seq<char>) -> Seq<u8> {
    encode_utf8(lowercase(s))
}

/// `rule` applies to the (already folded) app-id `id`.
pub open spec fn rule_matches(rule: Rule, id: Seq<u8>) -> bool {
    glob(folded(rule.pattern@), id)
}

/// The position of the first rule, at or after `from`, that applies to `id`.
pub open spec fn first_match_from(rules: Seq<Rule>, id: Seq<u8>, from: int) -> Option<int>
    decreases rules.len() - from,
{
    if from < 0 || from >= rules.len() {
        None
    } else if rule_matches(rules[from], id) {
        Some(from)
    } else {
        first_match_from(rules, id, from + 1)
    }
}

/// `first_match_from` finds the first applying rule of the range it searches.
pub proof fn lemma_first_match_from(rules: Seq<Rule>, id: Seq<u8>, from: int)
    requires
        0 <= from <= rules.len(),
    ensures
        match first_match_from(rules, id, from) {
            Some(k) => from <= k < rules.len() && rule_matches(rules[k], id) && forall|j: int|
                from <= j < k ==> !rule_matches(#[trigger] rules[j], id),
            None => forall|j: int| from <= j < rules.len() ==> !rule_matches(#[trigger] rules[j], id),
        },
    decreases rules.len() - from,
{
    if from < rules.len() && !rule_matches(rules[from], id) {
        lemma_first_match_from(rules, id, from + 1);
    }
}

/// The profile the rules select for an app-id: the first applying rule's
/// profile, or else the default (if any).
pub open spec fn spec_profile_for(rules: Seq<Rule>, default: Option<String>, app_id: Seq<char>) -> Option<Seq<char>> {
    match first_match_from(rules, folded(app_id), 0) {
        Some(k) => Some(rules[k].profile@),
        None => match default {
            Some(d) => Some(d@),
            None => None,
        },
    }
}

/// App-ids that lowercase alike select the same profile.
pub proof fn lemma_profile_for_ignores_case(
    rules: Seq<Rule>,
    default: Option<String>,
    a: Seq<char>,
    b: Seq<char>,
)
    requires
        lowercase(a) == lowercase(b),
    ensures
        spec_profile_for(rules, default, a) == spec_profile_for(rules, default, b),
{
}

/// The first rule that applies decides, whatever the rules after it say; with
/// no applying rule the default decides.
pub proof fn lemma_first_rule_wins(rules: Seq<Rule>, default: Option<String>, app_id: Seq<char>, k: int)
    requires
        0 <= k < rules.len(),
        rule_matches(rules[k], folded(app_id)),
        forall|j: int| 0 <= j < k ==> !rule_matches(#[trigger] rules[j], folded(app_id)),
    ensures
        spec_profile_for(rules, default, app_id) == Some(rules[k].profile@),
{
    lemma_first_match_from(rules, folded(app_id), 0);
}

/// The position of the first pattern, at or after `from`, that glob-matches
/// `id` (both compared as they are, by their UTF-8 bytes).
pub open spec fn first_glob_from(patterns: Seq<String>, id: Seq<u8>, from: int) -> Option<int>
    decreases patterns.len() - from,
{
    if from < 0 || from >= patterns.len() {
        None
    } else if glob(encode_utf8(patterns[from]@), id) {
        Some(from)
    } else {
        first_glob_from(patterns, id, from + 1)
    }
}

/// Matching the lowercased patterns against a folded app-id finds the same
/// first rule as matching the rules case-insensitively.
pub proof fn lemma_first_glob_agrees(rules: Seq<Rule>, patterns: Seq<String>, id: Seq<u8>, from: int)
    requires
        patterns.len() == rules.len(),
        0 <= from <= rules.len(),
        forall|j: int| 0 <= j < rules.len() ==> (#[trigger] patterns[j])@ == lowercase(rules[j].pattern@),
    ensures
        first_glob_from(patterns, id, from) == first_match_from(rules, id, from),
    decreases rules.len() - from,
{
    if from < rules.len() {
        assert(patterns[from]@ == lowercase(rules[from].pattern@));
        lemma_first_glob_agrees(rules, patterns, id, from + 1);
    }
}

impl Rules {
    /// Rules with no fallback profile and no rules.
    pub fn new() -> (r: Rules)
        ensures
            r.default is None,
            r.rules@.len() == 0,
    {
        Rules { default: None, rules: Vec::new() }
    }

    /// Resolve the profile for an app-id whose case has already been folded:
    /// `patterns[k]` is the already lowercased pattern of rule `k`, and `id` the
    /// already lowercased app-id. Returns the profile of the first rule whose
    /// pattern glob-matches `id`, falling back to `default`.
    pub fn select_profile(&self, patterns: &Vec<String>, id: &str) -> (r: Option<&str>)
        requires
            patterns@.len() == self.rules@.len(),
        ensures
            match first_glob_from(patterns@, id.spec_bytes(), 0) {
                Some(k) => r matches Some(s) && s@ == self.rules@[k].profile@,
                None => match self.default {
                    Some(d) => r matches Some(s) && s@ == d@,
                    None => r is None,
                },
            },
    {
        let mut k: usize = 0;
        while k < patterns.len()
            invariant
                patterns@.len() == self.rules@.len(),
                k <= patterns@.len(),
                first_glob_from(patterns@, id.spec_bytes(), k as int) == first_glob_from(
                    patterns@,
                    id.spec_bytes(),
                    0,
                ),
            decreases patterns@.len() - k,
        {
            if glob_match(patterns[k].as_str(), id) {
                return Some(self.rules[k].profile.as_str());
            }
            k = k + 1;
        }
        match &self.default {
            Some(d) => Some(d.as_str()),
            None => None,
        }
    }

    /// Resolve the profile for a focused window's app-id. Returns the first
    /// matching rule's profile, falling back to `default`; patterns and app-id
    /// are compared after lowercasing both.
    pub fn profile_for(&self, app_id: &str) -> (r: Option<&str>)
        ensures
            match spec_profile_for(self.rules@, self.default, app_id@) {
                Some(p) => r matches Some(s) && s@ == p,
                None => r is None,
            },
    {
        let id = to_lowercase(app_id);
        let mut patterns: Vec<String> = Vec::new();
        let mut k: usize = 0;
        while k < self.rules.len()
            invariant
                k <= self.rules@.len(),
                patterns@.len() == k,
                forall|j: int| 0 <= j < k ==> (#[trigger] patterns@[j])@ == lowercase(self.rules@[j].pattern@),
            decreases self.rules@.len() - k,
        {
            patterns.push(to_lowercase(self.rules[k].pattern.as_str()));
            k = k + 1;
        }
        proof {
            lemma_first_glob_agrees(self.rules@, patterns@, folded(app_id@), 0);
        }
        self.select_profile(&patterns, id.as_str())
    }
}

impl Default for Rules {
    fn default() -> (r: Rules)
        ensures
            r.default is None,
            r.rules@.len() == 0,
    {
        Rules::new()
    }
}

} // verus!
