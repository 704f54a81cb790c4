//! Building the request or response side of an interaction: headers under
//! string patterns, bodies, and the matching rules and generators that the
//! patterns imply.

use vstd::prelude::*;
use vstd::string::*;
use crate::contract::OptionalBody;
use crate::json::{
    JsonPattern, JsonScalarPattern, render_pattern, spec_pattern_text,
};

verus! {

/// Whether a pattern text compiles as a regular expression.
pub uninterp spec fn regex_compiles(pattern: Seq<char>) -> bool;

/// Relies on regex::Regex::new: whether a pattern compiles depends on the
/// pattern text alone.
#[verifier::external_body]
fn regex_is_valid(pattern: &str) -> (r: bool)
    ensures
        r == regex_compiles(pattern@),
{
    regex::Regex::new(pattern).is_ok()
}

/// A pattern for one string value: either an exact value, or a regular
/// expression with an example value it stands for.
#[verifier::ext_equal]
pub enum StringPattern {
    /// Matches exactly this value.
    Equality(String),
    /// Matches by regular expression; the expression, then the example.
    Term(String, String),
}

impl StringPattern {
    /// The example value this pattern stands for.
    pub open spec fn spec_example(&self) -> Seq<char> {
        match self {
            StringPattern::Equality(s) => s@,
            StringPattern::Term(_, e) => e@,
        }
    }

    /// The regular expression this pattern matches by, where it has one.
    pub open spec fn spec_regex(&self) -> Option<Seq<char>> {
        match self {
            StringPattern::Equality(_) => None,
            StringPattern::Term(r, _) => Some(r@),
        }
    }

    /// A term pattern, accepted only where the expression compiles.
    pub fn term(regex: String, example: String) -> (r: Option<StringPattern>)
        ensures
            (match r {
                Some(p) => p == StringPattern::Term(regex, example) && regex_compiles(regex@),
                None => !regex_compiles(regex@),
            }),
    {
        if regex_is_valid(regex.as_str()) {
            Some(StringPattern::Term(regex, example))
        } else {
            None
        }
    }

    /// An owned copy of the example value.
    pub fn to_example(&self) -> (r: String)
        ensures
            r@ == self.spec_example(),
    {
        match self {
            StringPattern::Equality(s) => s.clone(),
            StringPattern::Term(_, e) => e.clone(),
        }
    }
}

/// One matching rule a pattern implies.
#[verifier::ext_equal]
pub enum MatchingRule {
    /// The actual value must match this regular expression.
    Regex(String),
    /// The actual value must have the example's type.
    Type,
}

/// One recorded matching rule: the part it applies to, the path of the value
/// within the part, and the rule itself.
#[verifier::ext_equal]
pub struct MatchingRuleEntry {
    pub category: String,
    pub path: String,
    pub rule: MatchingRule,
}

/// The matching rules accumulated for one part, in the order added.
#[verifier::ext_equal]
pub struct MatchingRules {
    pub entries: Vec<MatchingRuleEntry>,
}

/// The kind of value a generated value replaces.
#[derive(Clone, Copy, PartialEq, Eq, Structural, Debug)]
pub enum DataType {
    STRING,
    INTEGER,
    DECIMAL,
    BOOLEAN,
    RAW,
}

/// How a substituted value is generated at match time.
#[verifier::ext_equal]
pub enum Generator {
    /// Look the value up in the provider state by this expression, coerced to
    /// the data type.
    ProviderStateGenerator(String, Option<DataType>),
}

/// The part a generated value lands in.
#[derive(Clone, Copy, PartialEq, Eq, Structural, Debug)]
pub enum GeneratorCategory {
    HEADER,
    PATH,
    QUERY,
    BODY,
    STATUS,
}

/// One recorded generator: where it applies, the path within that part, and
/// the generator itself.
#[verifier::ext_equal]
pub struct GeneratorEntry {
    pub category: GeneratorCategory,
    pub path: String,
    pub generator: Generator,
}

/// The generators accumulated for one part, in the order added.
#[verifier::ext_equal]
pub struct Generators {
    pub entries: Vec<GeneratorEntry>,
}

/// Whether some header entry carries this name.
pub open spec fn spec_has_header(h: Seq<(String, Vec<String>)>, name: Seq<char>) -> bool {
    exists|i: int| 0 <= i < h.len() && h[i].0@ == name
}

/// No header name occurs twice.
pub open spec fn spec_header_names_unique(h: Seq<(String, Vec<String>)>) -> bool {
    forall|i: int, j: int| 0 <= i < j < h.len() ==> h[i].0@ != h[j].0@
}

/// The headers after adding one value under a name: appended to the entry
/// already carrying the name, or a new entry at the end.
pub open spec fn spec_headers_step(
    pre: Seq<(String, Vec<String>)>,
    post: Seq<(String, Vec<String>)>,
    name: Seq<char>,
    example: Seq<char>,
) -> bool {
    if spec_has_header(pre, name) {
        exists|k: int|
            #![auto]
            0 <= k < pre.len() && pre[k].0@ == name && post.len() == pre.len() && (forall|j: int|
                #![auto]
                0 <= j < pre.len() && j != k ==> post[j] == pre[j]) && post[k].0@ == name
                && post[k].1@.len() == pre[k].1@.len() + 1 && (forall|j: int|
                #![auto]
                0 <= j < pre[k].1@.len() ==> post[k].1@[j] == pre[k].1@[j]) && post[k].1@.last()@
                == example
    } else {
        &&& post.len() == pre.len() + 1
        &&& (forall|j: int| #![auto] 0 <= j < pre.len() ==> post[j] == pre[j])
        &&& post.last().0@ == name
        &&& post.last().1@.len() == 1
        &&& post.last().1@[0]@ == example
    }
}

/// The matching rules after adding one header value: unchanged for an exact
/// value, one regular-expression rule for the header's path appended for a
/// term.
pub open spec fn spec_header_rules_step(
    pre: Seq<MatchingRuleEntry>,
    post: Seq<MatchingRuleEntry>,
    name: Seq<char>,
    regex: Option<Seq<char>>,
) -> bool {
    match regex {
        None => post == pre,
        Some(re) => {
            &&& post.len() == pre.len() + 1
            &&& (forall|j: int| #![auto] 0 <= j < pre.len() ==> post[j] == pre[j])
            &&& post.last().category@ == "header"@
            &&& post.last().path@ == "$."@ + name
            &&& post.last().rule == MatchingRule::Regex(post.last().rule->Regex_0)
            &&& post.last().rule->Regex_0@ == re
        },
    }
}

/// The generators after recording one provider-state substitution for a
/// header.
pub open spec fn spec_generator_added(
    pre: Seq<GeneratorEntry>,
    post: Seq<GeneratorEntry>,
    path: Seq<char>,
    expression: Seq<char>,
) -> bool {
    &&& post.len() == pre.len() + 1
    &&& (forall|j: int| #![auto] 0 <= j < pre.len() ==> post[j] == pre[j])
    &&& post.last().category == GeneratorCategory::HEADER
    &&& post.last().path@ == path
    &&& (match post.last().generator {
        Generator::ProviderStateGenerator(e, dt) => e@ == expression && dt == Some(
            DataType::STRING,
        ),
    })
}

/// The content of one matching rule, for stating what a recorded rule says.
pub enum RuleModel {
    Regex(Seq<char>),
    Type,
}

/// The content of one recorded rule.
pub open spec fn spec_rule_model(r: MatchingRule) -> RuleModel {
    match r {
        MatchingRule::Regex(s) => RuleModel::Regex(s@),
        MatchingRule::Type => RuleModel::Type,
    }
}

/// The contents of recorded rules: category, path and rule of each.
pub open spec fn spec_rules_model(s: Seq<MatchingRuleEntry>) -> Seq<(Seq<char>, Seq<char>, RuleModel)> {
    Seq::new(s.len(), |i: int| (s[i].category@, s[i].path@, spec_rule_model(s[i].rule)))
}

/// The body rules one scalar pattern implies at a path: none for a literal,
/// a type rule for a like, a regular-expression rule for a term.
pub open spec fn spec_scalar_rules(p: JsonScalarPattern, path: Seq<char>) -> Seq<(Seq<char>, Seq<char>, RuleModel)> {
    match p {
        JsonScalarPattern::Value(_) => Seq::empty(),
        JsonScalarPattern::Like(_) => seq![("body"@, path, RuleModel::Type)],
        JsonScalarPattern::Term(re, _) => seq![("body"@, path, RuleModel::Regex(re@))],
    }
}

/// The body rules an object's members imply, in member order.
pub open spec fn spec_members_rules(ms: Seq<(String, JsonScalarPattern)>) -> Seq<(Seq<char>, Seq<char>, RuleModel)>
    decreases ms.len(),
{
    if ms.len() == 0 {
        Seq::empty()
    } else {
        spec_members_rules(ms.drop_last()) + spec_scalar_rules(ms.last().1, "$."@ + ms.last().0@)
    }
}

/// The body rules a pattern implies: a scalar's at the root path, an
/// object's under each member's path.
pub open spec fn spec_pattern_rules(p: JsonPattern) -> Seq<(Seq<char>, Seq<char>, RuleModel)> {
    match p {
        JsonPattern::Scalar(sp) => spec_scalar_rules(sp, "$"@),
        JsonPattern::Object(ms) => spec_members_rules(ms@),
    }
}

/// One side of an interaction under construction: its headers, its body, and
/// the matching rules and generators recorded so far.
#[verifier::ext_equal]
pub struct HttpPart {
    /// Header names to the values under each, in the order added.
    pub headers: Vec<(String, Vec<String>)>,
    pub matching_rules: MatchingRules,
    pub generators: Generators,
    pub body: OptionalBody,
}

impl HttpPart {
    /// No header name occurs twice.
    pub open spec fn wf(&self) -> bool {
        spec_header_names_unique(self.headers@)
    }

    /// An empty part: no headers, no rules, no generators, no body.
    pub fn new() -> (r: HttpPart)
        ensures
            r.wf(),
            r.headers@.len() == 0,
            r.matching_rules.entries@.len() == 0,
            r.generators.entries@.len() == 0,
            r.body is Missing,
    {
        HttpPart {
            headers: Vec::new(),
            matching_rules: MatchingRules { entries: Vec::new() },
            generators: Generators { entries: Vec::new() },
            body: OptionalBody::Missing,
        }
    }

    /// The index of the entry carrying this name, where one exists.
    fn header_index(&self, name: &String) -> (r: Option<usize>)
        ensures
            (match r {
                Some(k) => 0 <= k < self.headers@.len() && self.headers@[k as int].0@ == name@,
                None => !spec_has_header(self.headers@, name@),
            }),
    {
        let mut k: usize = 0;
        while k < self.headers.len()
            invariant
                k <= self.headers.len(),
                forall|j: int| 0 <= j < k ==> self.headers@[j].0@ != name@,
            decreases self.headers.len() - k,
        {
            if self.headers[k].0 == *name {
                return Some(k);
            }
            k += 1;
        }
        None
    }

    /// Record the matching rule one scalar body pattern implies at a path.
    fn push_scalar_rule(&mut self, p: &JsonScalarPattern, path: String)
        ensures
            spec_rules_model(final(self).matching_rules.entries@) == spec_rules_model(
                old(self).matching_rules.entries@,
            ) + spec_scalar_rules(*p, path@),
            final(self).headers@ == old(self).headers@,
            final(self).generators.entries@ == old(self).generators.entries@,
            final(self).body == old(self).body,
    {
        let ghost pre = self.matching_rules.entries@;
        match p {
            JsonScalarPattern::Value(_) => {
                proof {
                    assert(spec_rules_model(pre) + spec_scalar_rules(*p, path@) =~= spec_rules_model(
                        pre,
                    ));
                }
            },
            JsonScalarPattern::Like(_) => {
                self.matching_rules.entries.push(
                    MatchingRuleEntry {
                        category: String::from_str("body"),
                        path,
                        rule: MatchingRule::Type,
                    },
                );
                proof {
                    assert(spec_rules_model(self.matching_rules.entries@) =~= spec_rules_model(pre)
                        + spec_scalar_rules(*p, path@));
                }
            },
            JsonScalarPattern::Term(re, _) => {
                self.matching_rules.entries.push(
                    MatchingRuleEntry {
                        category: String::from_str("body"),
                        path,
                        rule: MatchingRule::Regex(re.clone()),
                    },
                );
                proof {
                    assert(spec_rules_model(self.matching_rules.entries@) =~= spec_rules_model(pre)
                        + spec_scalar_rules(*p, path@));
                }
            },
        }
    }
}

/// `"$."` followed by a field name: the path of a top-level member.
pub fn doc_path_field(name: &String) -> (r: String)
    ensures
        r@ == "$."@ + name@,
{
    let mut r = String::from_str("$.");
    r.append(name.as_str());
    r
}

/// Methods shared between the builders of an interaction's request side and
/// its response side.
pub trait HttpPartBuilder {
    /// The part this builder accumulates.
    spec fn part(&self) -> HttpPart;

    /// Add one header value under a name: appended to the values already
    /// under the name, or opening a new entry at the end; a term pattern also
    /// records a matching rule for the header's path.
    fn header(&mut self, name: &String, value: &StringPattern)
        requires
            old(self).part().wf(),
        ensures
            final(self).part().wf(),
            spec_headers_step(
                old(self).part().headers@,
                final(self).part().headers@,
                name@,
                value.spec_example(),
            ),
            spec_header_rules_step(
                old(self).part().matching_rules.entries@,
                final(self).part().matching_rules.entries@,
                name@,
                value.spec_regex(),
            ),
            final(self).part().generators.entries@ == old(self).part().generators.entries@,
            final(self).part().body == old(self).part().body,
    ;

    /// As `header`, additionally recording that the value is substituted from
    /// the provider state under the given expression.
    fn header_from_provider_state(&mut self, name: &String, expression: &String, value: &StringPattern)
        requires
            old(self).part().wf(),
        ensures
            final(self).part().wf(),
            spec_headers_step(
                old(self).part().headers@,
                final(self).part().headers@,
                name@,
                value.spec_example(),
            ),
            spec_header_rules_step(
                old(self).part().matching_rules.entries@,
                final(self).part().matching_rules.entries@,
                name@,
                value.spec_regex(),
            ),
            spec_generator_added(
                old(self).part().generators.entries@,
                final(self).part().generators.entries@,
                "$."@ + name@,
                expression@,
            ),
            final(self).part().body == old(self).part().body,
    ;

    /// Set the body to a literal value, with no content type.
    fn body(&mut self, body: &String)
        requires
            old(self).part().wf(),
        ensures
            final(self).part().wf(),
            final(self).part().headers@ == old(self).part().headers@,
            final(self).part().matching_rules.entries@ == old(self).part().matching_rules.entries@,
            final(self).part().generators.entries@ == old(self).part().generators.entries@,
            (match final(self).part().body {
                OptionalBody::Present(t, ct) => t@ == body@ && ct is None,
                _ => false,
            }),
    ;

    /// Set the body to a literal value with a content type. The content type
    /// is kept verbatim, whether or not it parses as a media type; callers
    /// that want an unparsable one dropped test it first.
    fn body2(&mut self, body: &String, content_type: &String)
        requires
            old(self).part().wf(),
        ensures
            final(self).part().wf(),
            final(self).part().headers@ == old(self).part().headers@,
            final(self).part().matching_rules.entries@ == old(self).part().matching_rules.entries@,
            final(self).part().generators.entries@ == old(self).part().generators.entries@,
            (match final(self).part().body {
                OptionalBody::Present(t, ct) => t@ == body@ && (match ct {
                    Some(c) => c@ == content_type@,
                    None => false,
                }),
                _ => false,
            }),
    ;

    /// Set the body to the example a JSON pattern stands for, under the
    /// `application/json` content type, recording the matching rules the
    /// pattern implies.
    fn json_body(&mut self, body: &JsonPattern)
        requires
            old(self).part().wf(),
        ensures
            final(self).part().wf(),
            final(self).part().headers@ == old(self).part().headers@,
            final(self).part().generators.entries@ == old(self).part().generators.entries@,
            spec_rules_model(final(self).part().matching_rules.entries@) == spec_rules_model(
                old(self).part().matching_rules.entries@,
            ) + spec_pattern_rules(*body),
            (match final(self).part().body {
                OptionalBody::Present(t, ct) => t@ == spec_pattern_text(*body) && (match ct {
                    Some(c) => c@ == "application/json"@,
                    None => false,
                }),
                _ => false,
            }),
    ;

    /// Set the `Content-Type` header.
    fn content_type(&mut self, value: &StringPattern)
        requires
            old(self).part().wf(),
        ensures
            final(self).part().wf(),
            spec_headers_step(
                old(self).part().headers@,
                final(self).part().headers@,
                "Content-Type"@,
                value.spec_example(),
            ),
            spec_header_rules_step(
                old(self).part().matching_rules.entries@,
                final(self).part().matching_rules.entries@,
                "Content-Type"@,
                value.spec_regex(),
            ),
            final(self).part().generators.entries@ == old(self).part().generators.entries@,
            final(self).part().body == old(self).part().body,
    {
        let name = String::from_str("Content-Type");
        self.header(&name, value);
    }

    /// Set the `Content-Type` header to `text/html`.
    fn html(&mut self)
        requires
            old(self).part().wf(),
        ensures
            final(self).part().wf(),
            spec_headers_step(
                old(self).part().headers@,
                final(self).part().headers@,
                "Content-Type"@,
                "text/html"@,
            ),
            spec_header_rules_step(
                old(self).part().matching_rules.entries@,
                final(self).part().matching_rules.entries@,
                "Content-Type"@,
                None,
            ),
            final(self).part().generators.entries@ == old(self).part().generators.entries@,
            final(self).part().body == old(self).part().body,
    {
        let value = StringPattern::Equality(String::from_str("text/html"));
        self.content_type(&value);
    }

    /// Set the `Content-Type` header to `application/json; charset=utf-8`,
    /// with enough flexibility to cover common variations.
    fn json_utf8(&mut self)
        requires
            old(self).part().wf(),
        ensures
            final(self).part().wf(),
            spec_headers_step(
                old(self).part().headers@,
                final(self).part().headers@,
                "Content-Type"@,
                "application/json; charset=utf-8"@,
            ),
            spec_header_rules_step(
                old(self).part().matching_rules.entries@,
                final(self).part().matching_rules.entries@,
                "Content-Type"@,
                Some("^application/json; charset=(utf|UTF)-8$"@),
            ),
            final(self).part().generators.entries@ == old(self).part().generators.entries@,
            final(self).part().body == old(self).part().body,
    {
        let value = StringPattern::Term(
            String::from_str("^application/json; charset=(utf|UTF)-8$"),
            String::from_str("application/json; charset=utf-8"),
        );
        self.content_type(&value);
    }
}

impl HttpPartBuilder for HttpPart {
    open spec fn part(&self) -> HttpPart {
        *self
    }

    fn header(&mut self, name: &String, value: &StringPattern) {
        let example = value.to_example();
        let ghost pre = self.headers@;
        match self.header_index(name) {
            Some(k) => {
                let mut entry = self.headers.remove(k);
                entry.1.push(example);
                self.headers.insert(k, entry);
                proof {
                    assert(self.headers@ =~= pre.update(k as int, self.headers@[k as int]));
                    assert(spec_has_header(pre, name@)) by {
                        assert(pre[k as int].0@ == name@);
                    }
                    assert forall|i: int, j: int| 0 <= i < j < self.headers@.len()
                        implies self.headers@[i].0@ != self.headers@[j].0@ by {
                        assert(pre[i].0@ != pre[j].0@);
                        assert(self.headers@[i].0@ == pre[i].0@);
                        assert(self.headers@[j].0@ == pre[j].0@);
                    }
                }
            },
            None => {
                let mut values: Vec<String> = Vec::new();
                values.push(example);
                self.headers.push((name.clone(), values));
                proof {
                    assert forall|i: int, j: int| 0 <= i < j < self.headers@.len()
                        implies self.headers@[i].0@ != self.headers@[j].0@ by {
                        if j < pre.len() {
                            assert(pre[i].0@ != pre[j].0@);
                        } else {
                            assert(self.headers@[j].0@ == name@);
                            assert(self.headers@[i] == pre[i]);
                        }
                    }
                }
            },
        }
        match value {
            StringPattern::Equality(_) => {},
            StringPattern::Term(re, _) => {
                let path = doc_path_field(name);
                self.matching_rules.entries.push(
                    MatchingRuleEntry {
                        category: String::from_str("header"),
                        path,
                        rule: MatchingRule::Regex(re.clone()),
                    },
                );
            },
        }
    }

    fn header_from_provider_state(&mut self, name: &String, expression: &String, value: &StringPattern) {
        self.header(name, value);
        let path = doc_path_field(name);
        self.generators.entries.push(
            GeneratorEntry {
                category: GeneratorCategory::HEADER,
                path,
                generator: Generator::ProviderStateGenerator(
                    expression.clone(),
                    Some(DataType::STRING),
                ),
            },
        );
    }

    fn body(&mut self, body: &String) {
        self.body = OptionalBody::Present(body.clone(), None);
    }

    fn body2(&mut self, body: &String, content_type: &String) {
        self.body = OptionalBody::Present(body.clone(), Some(content_type.clone()));
    }

    fn json_body(&mut self, body: &JsonPattern) {
        let text = render_pattern(body);
        self.body = OptionalBody::Present(text, Some(String::from_str("application/json")));
        let ghost pre = *self;
        match body {
            JsonPattern::Scalar(sp) => {
                self.push_scalar_rule(sp, String::from_str("$"));
            },
            JsonPattern::Object(ms) => {
                let n = ms.len();
                let mut i: usize = 0;
                while i < n
                    invariant
                        i <= n,
                        n == ms@.len(),
                        self.headers@ == pre.headers@,
                        self.generators.entries@ == pre.generators.entries@,
                        self.body == pre.body,
                        spec_rules_model(self.matching_rules.entries@) == spec_rules_model(
                            pre.matching_rules.entries@,
                        ) + spec_members_rules(ms@.subrange(0, i as int)),
                    decreases n - i,
                {
                    let path = doc_path_field(&ms[i].0);
                    self.push_scalar_rule(&ms[i].1, path);
                    proof {
                        assert(ms@.subrange(0, (i + 1) as int).drop_last() =~= ms@.subrange(
                            0,
                            i as int,
                        ));
                        assert(ms@.subrange(0, (i + 1) as int).last() == ms@[i as int]);
                        assert(spec_rules_model(self.matching_rules.entries@) =~= spec_rules_model(
                            pre.matching_rules.entries@,
                        ) + spec_members_rules(ms@.subrange(0, (i + 1) as int)));
                    }
                    i += 1;
                }
                proof {
                    assert(ms@.subrange(0, n as int) =~= ms@);
                }
            },
        }
    }
}

} // verus!
