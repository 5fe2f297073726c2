use vstd::prelude::*;

use crate::ast::{
    DefaultMode, DefaultModeView, DefaultValidation, ExcludeResultPrefix, ExcludeResultPrefixes,
    ExcludeResultPrefixesView, Name, Prefix, Standard, StandardView, StaticStandard, Uri, is_local_name,
    law_eqname_injective, spec_eqname,
    strings_view,
};
use crate::collections::{
    StringMap, StringSet, new_string_map, new_string_set, string_map_clone, string_map_contents,
    string_map_entries, string_map_extend, string_map_get, string_set_clone, string_set_contents,
    string_set_contains, string_set_extend_with_values, string_set_insert,
};
use crate::decimal::Decimal;
use crate::strings::{pair_view, sort_pairs, strictly_increasing};

verus! {

/// The XSLT namespace.
pub open spec fn xslt_namespace() -> Seq<char> {
    "http://www.w3.org/1999/XSL/Transform"@
}

/// The namespace of the XPath functions.
pub open spec fn fn_namespace() -> Seq<char> {
    "http://www.w3.org/2005/xpath-functions"@
}

/// The Unicode codepoint collation, the default collation of XSLT.
pub open spec fn codepoint_collation() -> Seq<char> {
    "http://www.w3.org/2005/xpath-functions/collation/codepoint"@
}

/// The model of a static context.
#[verifier::ext_equal]
pub struct ContextView {
    /// The in-scope namespaces: prefix to namespace URI.
    pub prefixes: Map<Seq<char>, Seq<char>>,
    /// The known variable names, in `Q{uri}local` form.
    pub variable_names: Set<Seq<char>>,
    pub default_collation: Seq<Seq<char>>,
    pub default_mode: DefaultModeView,
    pub default_validation: DefaultValidation,
    pub expand_text: bool,
    pub version: Decimal,
    pub xpath_default_namespace: Seq<char>,
    /// The namespaces designated by `exclude-result-prefixes` and by
    /// `extension-element-prefixes` so far.
    pub excluded_namespaces: Set<Seq<char>>,
    pub extension_element_prefixes: Seq<Seq<char>>,
    /// The in-scope namespaces of the nearest enclosing literal result element.
    pub literal_result_element_prefixes: Map<Seq<char>, Seq<char>>,
}

/// The static context in which a part of a stylesheet is compiled. Each
/// `with_` method gives the context for a sub-tree.
#[derive(Debug)]
pub struct Context {
    prefixes: StringMap,
    variable_names: StringSet,
    default_collation: Vec<Uri>,
    default_mode: DefaultMode,
    default_validation: DefaultValidation,
    expand_text: bool,
    version: Decimal,
    xpath_default_namespace: Uri,
    excluded_namespaces: StringSet,
    extension_element_prefixes: Vec<Prefix>,
    literal_result_element_prefixes: StringMap,
}

impl View for Context {
    type V = ContextView;

    closed spec fn view(&self) -> ContextView {
        ContextView {
            prefixes: string_map_contents(self.prefixes),
            variable_names: string_set_contents(self.variable_names),
            default_collation: strings_view(self.default_collation@),
            default_mode: self.default_mode@,
            default_validation: self.default_validation,
            expand_text: self.expand_text,
            version: self.version,
            xpath_default_namespace: self.xpath_default_namespace@,
            excluded_namespaces: string_set_contents(self.excluded_namespaces),
            extension_element_prefixes: strings_view(self.extension_element_prefixes@),
            literal_result_element_prefixes: string_map_contents(
                self.literal_result_element_prefixes,
            ),
        }
    }
}

/// The context of a stylesheet's outermost element, before any of its
/// attributes is read.
pub open spec fn spec_empty() -> ContextView {
    ContextView {
        prefixes: Map::empty(),
        variable_names: Set::empty(),
        default_collation: seq![codepoint_collation()],
        default_mode: DefaultModeView::Unnamed,
        default_validation: DefaultValidation::Strip,
        expand_text: false,
        version: spec_version_3_0(),
        xpath_default_namespace: Seq::empty(),
        excluded_namespaces: Set::empty(),
        extension_element_prefixes: Seq::empty(),
        literal_result_element_prefixes: Map::empty(),
    }
}

/// The decimal 3.0, the version of XSLT 3.0: mantissa 30, scale 1.
pub open spec fn spec_version_3_0() -> Decimal {
    Decimal::spec_new(30, 1)
}

/// The context with other in-scope namespaces added, replacing those of the
/// same prefix.
pub open spec fn spec_with_prefixes(c: ContextView, prefixes: Map<Seq<char>, Seq<char>>) -> ContextView {
    ContextView { prefixes: c.prefixes.union_prefer_right(prefixes), ..c }
}

/// The context with one more known variable name.
pub open spec fn spec_with_variable_name(c: ContextView, name: (Seq<char>, Seq<char>)) -> ContextView {
    ContextView { variable_names: c.variable_names.insert(spec_eqname(name.0, name.1)), ..c }
}

/// The context for the children of a literal result element: they see its
/// in-scope namespaces as already declared in the result.
pub open spec fn spec_with_literal_result_element(c: ContextView) -> ContextView {
    ContextView { literal_result_element_prefixes: c.prefixes, ..c }
}

/// The context for content that constructs a separate tree: no namespace is
/// declared by an enclosing literal result element.
pub open spec fn spec_without_literal_result_element(c: ContextView) -> ContextView {
    ContextView { literal_result_element_prefixes: Map::empty(), ..c }
}

/// The context for an element that carries the static standard attributes:
/// its namespace declarations are added to the in-scope namespaces, and its
/// `xpath-default-namespace`, where present, replaces the context's.
pub open spec fn spec_with_static_standard(
    c: ContextView,
    namespaces: Map<Seq<char>, Seq<char>>,
    xpath_default_namespace: Option<Seq<char>>,
) -> ContextView {
    ContextView {
        prefixes: c.prefixes.union_prefer_right(namespaces),
        xpath_default_namespace: match xpath_default_namespace {
            Some(u) => u,
            None => c.xpath_default_namespace,
        },
        ..c
    }
}

/// The namespaces that the prefixes designate, each resolved against the
/// in-scope namespaces; a prefix with no binding designates none.
pub open spec fn designated_namespaces(
    prefixes: Map<Seq<char>, Seq<char>>,
    wanted: Seq<Seq<char>>,
) -> Set<Seq<char>> {
    Set::new(
        |u: Seq<char>|
            exists|i: int|
                0 <= i < wanted.len() && prefixes.contains_key(#[trigger] wanted[i])
                    && prefixes[wanted[i]] == u,
    )
}

/// The excluded namespaces after an element with the standard attributes
/// `s`, whose in-scope namespaces are `expanded`: those excluded before,
/// those that `exclude-result-prefixes` designates (every in-scope one for
/// `#all`), and those that `extension-element-prefixes` designates.
pub open spec fn spec_excluded_namespaces(
    excluded: Set<Seq<char>>,
    expanded: Map<Seq<char>, Seq<char>>,
    s: StandardView,
) -> Set<Seq<char>> {
    let by_exclude = match s.exclude_result_prefixes {
        None => Set::empty(),
        Some(ExcludeResultPrefixesView::All) => expanded.values(),
        Some(ExcludeResultPrefixesView::Prefixes(ps)) => designated_namespaces(expanded, ps),
    };
    let by_extension = match s.extension_element_prefixes {
        None => Set::empty(),
        Some(ps) => designated_namespaces(expanded, ps),
    };
    excluded.union(by_exclude).union(by_extension)
}

/// The context for an element with namespace declarations `namespaces` and
/// standard attributes `s`: the declarations join the in-scope namespaces;
/// each attribute that is present replaces the context's setting, except
/// that the extension element prefixes accumulate and so do the excluded
/// namespaces.
pub open spec fn spec_with_standard(
    c: ContextView,
    namespaces: Map<Seq<char>, Seq<char>>,
    s: StandardView,
) -> ContextView {
    let expanded = c.prefixes.union_prefer_right(namespaces);
    ContextView {
        prefixes: expanded,
        variable_names: c.variable_names,
        default_collation: match s.default_collation {
            Some(v) => v,
            None => c.default_collation,
        },
        default_mode: match s.default_mode {
            Some(m) => m,
            None => c.default_mode,
        },
        default_validation: match s.default_validation {
            Some(v) => v,
            None => c.default_validation,
        },
        expand_text: match s.expand_text {
            Some(b) => b,
            None => c.expand_text,
        },
        version: match s.version {
            Some(v) => v,
            None => c.version,
        },
        xpath_default_namespace: match s.xpath_default_namespace {
            Some(u) => u,
            None => c.xpath_default_namespace,
        },
        excluded_namespaces: spec_excluded_namespaces(c.excluded_namespaces, expanded, s),
        extension_element_prefixes: match s.extension_element_prefixes {
            Some(ps) => c.extension_element_prefixes + ps,
            None => c.extension_element_prefixes,
        },
        literal_result_element_prefixes: c.literal_result_element_prefixes,
    }
}

/// The namespaces designated by prefixes and one more prefix are those of
/// the prefixes and those of the one more.
proof fn lemma_designated_push(
    prefixes: Map<Seq<char>, Seq<char>>,
    wanted: Seq<Seq<char>>,
    p: Seq<char>,
)
    ensures
        designated_namespaces(prefixes, wanted.push(p)) =~= designated_namespaces(
            prefixes,
            wanted,
        ).union(designated_namespaces(prefixes, seq![p])),
{
    let all = wanted.push(p);
    assert forall|u: Seq<char>| #[trigger]
        designated_namespaces(prefixes, all).contains(u) implies designated_namespaces(
        prefixes,
        wanted,
    ).union(designated_namespaces(prefixes, seq![p])).contains(u) by {
        let i = choose|i: int|
            0 <= i < all.len() && prefixes.contains_key(#[trigger] all[i]) && prefixes[all[i]] == u;
        if i < wanted.len() {
            assert(wanted[i] == all[i]);
        } else {
            assert(seq![p][0] == all[i]);
        }
    }
    assert forall|u: Seq<char>| #[trigger]
        designated_namespaces(prefixes, wanted).union(
            designated_namespaces(prefixes, seq![p]),
        ).contains(u) implies designated_namespaces(prefixes, all).contains(u) by {
        if designated_namespaces(prefixes, wanted).contains(u) {
            let i = choose|i: int|
                0 <= i < wanted.len() && prefixes.contains_key(#[trigger] wanted[i])
                    && prefixes[wanted[i]] == u;
            assert(all[i] == wanted[i]);
        } else {
            let i = choose|i: int|
                0 <= i < 1 && prefixes.contains_key(#[trigger] seq![p][i]) && prefixes[seq![p][i]]
                    == u;
            assert(all[wanted.len() as int] == p);
        }
    }
}

/// Adds to `excluded` the namespace that `wanted` is bound to in `expanded`,
/// if it is bound.
fn exclude_prefix(expanded: &StringMap, wanted: &str, excluded: &mut StringSet)
    ensures
        string_set_contents(*final(excluded)) == string_set_contents(*old(excluded)).union(
            designated_namespaces(string_map_contents(*expanded), seq![wanted@]),
        ),
{
    let ghost m = string_map_contents(*expanded);
    let ghost w = seq![wanted@];
    match string_map_get(expanded, wanted) {
        Some(namespace) => {
            string_set_insert(excluded, namespace.clone());
            assert(designated_namespaces(m, w) =~= set![m[wanted@]]) by {
                assert forall|u: Seq<char>| #[trigger]
                    designated_namespaces(m, w).contains(u) implies u == m[wanted@] by {
                    let i = choose|i: int|
                        0 <= i < w.len() && m.contains_key(#[trigger] w[i]) && m[w[i]] == u;
                }
                assert(w[0] == wanted@);
            }
        },
        None => {
            assert(designated_namespaces(m, w) =~= Set::empty()) by {
                assert forall|u: Seq<char>| !#[trigger] designated_namespaces(m, w).contains(u) by {
                    if designated_namespaces(m, w).contains(u) {
                        let i = choose|i: int|
                            0 <= i < w.len() && m.contains_key(#[trigger] w[i]) && m[w[i]] == u;
                    }
                }
            }
        },
    }
    assert(string_set_contents(*excluded) =~= string_set_contents(*old(excluded)).union(
        designated_namespaces(m, w),
    ));
}

/// Adds to `excluded` the namespaces that the prefixes designate in
/// `expanded`.
fn exclude_prefixes(expanded: &StringMap, wanted: &Vec<String>, excluded: &mut StringSet)
    ensures
        string_set_contents(*final(excluded)) == string_set_contents(*old(excluded)).union(
            designated_namespaces(string_map_contents(*expanded), strings_view(wanted@)),
        ),
{
    let ghost m = string_map_contents(*expanded);
    let ghost before = string_set_contents(*excluded);
    let ghost w = strings_view(wanted@);
    for i in 0..wanted.len()
        invariant
            m == string_map_contents(*expanded),
            w == strings_view(wanted@),
            string_set_contents(*excluded) == before.union(designated_namespaces(m, w.take(i as int))),
    {
        let ghost prev = string_set_contents(*excluded);
        exclude_prefix(expanded, wanted[i].as_str(), excluded);
        proof {
            assert(w[i as int] == wanted@[i as int]@);
            assert(seq![wanted@[i as int]@] =~= seq![w[i as int]]);
            assert(string_set_contents(*excluded) == prev.union(designated_namespaces(m, seq![w[i as int]])));
            assert(prev == before.union(designated_namespaces(m, w.take(i as int))));
            assert(w.take(i + 1) =~= w.take(i as int).push(w[i as int]));
            lemma_designated_push(m, w.take(i as int), w[i as int]);
            assert(string_set_contents(*excluded) =~= before.union(
                designated_namespaces(m, w.take(i + 1)),
            ));
        }
    }
    assert(w.take(wanted.len() as int) =~= w);
}

/// Adds to `excluded` the namespaces that the tokens of
/// `exclude-result-prefixes` designate in `expanded`.
fn exclude_result_prefix_tokens(
    expanded: &StringMap,
    tokens: &Vec<ExcludeResultPrefix>,
    excluded: &mut StringSet,
)
    ensures
        string_set_contents(*final(excluded)) == string_set_contents(*old(excluded)).union(
            designated_namespaces(
                string_map_contents(*expanded),
                tokens@.map_values(|e: ExcludeResultPrefix| e@),
            ),
        ),
{
    let ghost m = string_map_contents(*expanded);
    let ghost before = string_set_contents(*excluded);
    let ghost w = tokens@.map_values(|e: ExcludeResultPrefix| e@);
    for i in 0..tokens.len()
        invariant
            m == string_map_contents(*expanded),
            w == tokens@.map_values(|e: ExcludeResultPrefix| e@),
            string_set_contents(*excluded) == before.union(designated_namespaces(m, w.take(i as int))),
    {
        match &tokens[i] {
            ExcludeResultPrefix::Default => {
                exclude_prefix(expanded, "", excluded);
                proof {
                    reveal_strlit("");
                    assert(w[i as int] == tokens@[i as int]@);
                    assert(""@ =~= Seq::<char>::empty());
                    assert(seq![""@] =~= seq![w[i as int]]);
                }
            },
            ExcludeResultPrefix::Prefix(prefix) => {
                exclude_prefix(expanded, prefix.as_str(), excluded);
                proof {
                    assert(w[i as int] == tokens@[i as int]@);
                    assert(seq![prefix@] =~= seq![w[i as int]]);
                }
            },
        }
        proof {
            assert(w.take(i + 1) =~= w.take(i as int).push(w[i as int]));
            lemma_designated_push(m, w.take(i as int), w[i as int]);
            assert(string_set_contents(*excluded) =~= before.union(
                designated_namespaces(m, w.take(i + 1)),
            ));
        }
    }
    assert(w.take(tokens.len() as int) =~= w);
}

/// Whether a literal result element in context `c` declares the namespace
/// `uri` under `prefix` in the result: `prefix` is bound to `uri` in scope,
/// the nearest enclosing literal result element did not already declare it,
/// and `uri` is neither the XSLT namespace, nor excluded, nor empty (an
/// `xmlns=""` undeclaration is not a namespace).
pub open spec fn declares_namespace(c: ContextView, prefix: Seq<char>, uri: Seq<char>) -> bool {
    &&& c.prefixes.contains_key(prefix)
    &&& c.prefixes[prefix] == uri
    &&& !(c.literal_result_element_prefixes.contains_key(prefix)
        && c.literal_result_element_prefixes[prefix] == uri)
    &&& uri != xslt_namespace()
    &&& !c.excluded_namespaces.contains(uri)
    &&& uri.len() > 0
}

/// The namespaces that a literal result element in context `c` declares in
/// the result, as (prefix, URI) pairs.
pub open spec fn spec_declared_namespaces(c: ContextView) -> Set<(Seq<char>, Seq<char>)> {
    Set::new(|pu: (Seq<char>, Seq<char>)| declares_namespace(c, pu.0, pu.1))
}

/// The (prefix, URI) pairs of a sequence of string pairs.
pub open spec fn pairs_set(s: Seq<(String, String)>) -> Set<(Seq<char>, Seq<char>)> {
    Set::new(|pu: (Seq<char>, Seq<char>)| exists|i: int| 0 <= i < s.len() && #[trigger] pair_view(s[i]) == pu)
}

/// The static namespaces with which an XPath expression is parsed.
#[derive(Debug)]
pub struct Namespaces {
    /// Prefix to namespace URI.
    pub namespaces: StringMap,
    pub default_element_namespace: String,
    pub default_function_namespace: String,
}

/// What an XPath parser is given: the static namespaces and the known
/// variable names.
#[derive(Debug)]
pub struct ParserContext {
    pub namespaces: Namespaces,
    pub variable_names: StringSet,
}

/// A copy of each string, in order.
fn clone_strings(v: &Vec<String>) -> (r: Vec<String>)
    ensures
        strings_view(r@) == strings_view(v@),
{
    let mut r: Vec<String> = Vec::new();
    for i in 0..v.len()
        invariant
            r@.len() == i,
            forall|j: int| 0 <= j < i ==> #[trigger] r@[j] == v@[j],
    {
        r.push(v[i].clone());
    }
    assert(r@ =~= v@);
    r
}

impl Clone for Context {
    /// A copy of the context.
    fn clone(&self) -> (r: Context)
        ensures
            r@ == self@,
    {
        Context {
            prefixes: string_map_clone(&self.prefixes),
            variable_names: string_set_clone(&self.variable_names),
            default_collation: clone_strings(&self.default_collation),
            default_mode: self.default_mode.duplicate(),
            default_validation: self.default_validation,
            expand_text: self.expand_text,
            version: self.version,
            xpath_default_namespace: self.xpath_default_namespace.clone(),
            excluded_namespaces: string_set_clone(&self.excluded_namespaces),
            extension_element_prefixes: clone_strings(&self.extension_element_prefixes),
            literal_result_element_prefixes: string_map_clone(
                &self.literal_result_element_prefixes,
            ),
        }
    }
}

impl Context {
    /// The context of a stylesheet's outermost element, with the given
    /// in-scope namespaces.
    pub fn new(prefixes: StringMap) -> (r: Context)
        ensures
            r@ == (ContextView { prefixes: string_map_contents(prefixes), ..spec_empty() }),
    {
        let mut r = Context::empty();
        r.prefixes = prefixes;
        r
    }

    /// The context before any attribute or namespace is read: no in-scope
    /// namespace, no variable, the codepoint collation, the unnamed mode,
    /// validation `strip`, no text value templates, version 3.0, no default
    /// namespace for XPath, nothing excluded.
    pub fn empty() -> (r: Context)
        ensures
            r@ == spec_empty(),
    {
        let mut default_collation: Vec<Uri> = Vec::new();
        default_collation.push(
            "http://www.w3.org/2005/xpath-functions/collation/codepoint".to_owned(),
        );
        let version = Decimal::new(30, 1).unwrap();
        let r = Context {
            prefixes: new_string_map(),
            variable_names: new_string_set(),
            default_collation,
            default_mode: DefaultMode::Unnamed,
            default_validation: DefaultValidation::Strip,
            expand_text: false,
            version,
            xpath_default_namespace: "".to_owned(),
            excluded_namespaces: new_string_set(),
            extension_element_prefixes: Vec::new(),
            literal_result_element_prefixes: new_string_map(),
        };
        proof {
            reveal_strlit("");
            assert(strings_view(r.default_collation@) =~= seq![codepoint_collation()]);
            assert(strings_view(r.extension_element_prefixes@) =~= Seq::<Seq<char>>::empty());
            assert(r@ =~= spec_empty());
        }
        r
    }

    /// The context with the given namespaces added to the in-scope ones,
    /// replacing those of the same prefix.
    pub fn with_prefixes(&self, prefixes: &StringMap) -> (r: Context)
        ensures
            r@ == spec_with_prefixes(self@, string_map_contents(*prefixes)),
    {
        let mut expanded_prefixes = string_map_clone(&self.prefixes);
        string_map_extend(&mut expanded_prefixes, prefixes);
        let r = Context { prefixes: expanded_prefixes, ..self.clone() };
        assert(r@ =~= spec_with_prefixes(self@, string_map_contents(*prefixes)));
        r
    }

    /// The context in which the variable `name` is known too.
    pub fn with_variable_name(&self, name: &Name) -> (r: Context)
        ensures
            r@ == spec_with_variable_name(self@, name@),
    {
        let mut variable_names = string_set_clone(&self.variable_names);
        string_set_insert(&mut variable_names, name.eqname());
        let r = Context { variable_names, ..self.clone() };
        assert(r@ =~= spec_with_variable_name(self@, name@));
        r
    }

    /// The context for an element with the given namespace declarations and
    /// static standard attributes.
    pub fn with_static_standard(&self, namespaces: &StringMap, static_standard: StaticStandard) -> (r:
        Context)
        ensures
            r@ == spec_with_static_standard(
                self@,
                string_map_contents(*namespaces),
                match static_standard.xpath_default_namespace {
                    Some(u) => Some(u@),
                    None => None,
                },
            ),
    {
        let mut expanded_prefixes = string_map_clone(&self.prefixes);
        string_map_extend(&mut expanded_prefixes, namespaces);
        let xpath_default_namespace = match static_standard.xpath_default_namespace {
            Some(xpath_default_namespace) => xpath_default_namespace,
            None => self.xpath_default_namespace.clone(),
        };
        let r = Context { prefixes: expanded_prefixes, xpath_default_namespace, ..self.clone() };
        assert(r@ =~= spec_with_static_standard(
            self@,
            string_map_contents(*namespaces),
            match static_standard.xpath_default_namespace {
                Some(u) => Some(u@),
                None => None,
            },
        ));
        r
    }

    /// A context for the children of a literal result element, which
    /// remembers the in-scope namespaces that the element declares in the
    /// result.
    pub fn with_literal_result_element(&self) -> (r: Context)
        ensures
            r@ == spec_with_literal_result_element(self@),
    {
        let r = Context {
            literal_result_element_prefixes: string_map_clone(&self.prefixes),
            ..self.clone()
        };
        assert(r@ =~= spec_with_literal_result_element(self@));
        r
    }

    /// A context for content that constructs a separate tree (such as
    /// `xsl:variable`): its elements cannot rely on an enclosing literal
    /// result element to declare their namespaces.
    pub fn without_literal_result_element(&self) -> (r: Context)
        ensures
            r@ == spec_without_literal_result_element(self@),
    {
        let r = Context { literal_result_element_prefixes: new_string_map(), ..self.clone() };
        assert(r@ =~= spec_without_literal_result_element(self@));
        r
    }

    /// The context for an element with namespace declarations `namespaces`
    /// and standard attributes `standard`. The declarations join the
    /// in-scope namespaces; each attribute that is present replaces the
    /// context's setting. `exclude-result-prefixes` and
    /// `extension-element-prefixes` designate namespaces by resolving each
    /// prefix against the namespaces in scope at the element (a prefix with
    /// no binding designates none, and `#all` designates every in-scope
    /// namespace); those are excluded in addition to the ones excluded
    /// before. The extension element prefixes follow those of the context.
    pub fn with_standard(&self, namespaces: &StringMap, standard: Standard) -> (r: Context)
        ensures
            r@ == spec_with_standard(self@, string_map_contents(*namespaces), standard@),
    {
        let ghost sv = standard@;
        let mut expanded_prefixes = string_map_clone(&self.prefixes);
        string_map_extend(&mut expanded_prefixes, namespaces);
        let default_collation = match standard.default_collation {
            Some(default_collation) => default_collation,
            None => clone_strings(&self.default_collation),
        };
        let default_mode = match standard.default_mode {
            Some(default_mode) => default_mode,
            None => self.default_mode.duplicate(),
        };
        let default_validation = match standard.default_validation {
            Some(default_validation) => default_validation,
            None => self.default_validation,
        };
        let expand_text = match standard.expand_text {
            Some(expand_text) => expand_text,
            None => self.expand_text,
        };
        let version = match standard.version {
            Some(version) => version,
            None => self.version,
        };
        let xpath_default_namespace = match standard.xpath_default_namespace {
            Some(xpath_default_namespace) => xpath_default_namespace,
            None => self.xpath_default_namespace.clone(),
        };
        let mut excluded_namespaces = string_set_clone(&self.excluded_namespaces);
        match &standard.exclude_result_prefixes {
            Some(ExcludeResultPrefixes::All) => {
                string_set_extend_with_values(&mut excluded_namespaces, &expanded_prefixes);
            },
            Some(ExcludeResultPrefixes::Prefixes(tokens)) => {
                exclude_result_prefix_tokens(&expanded_prefixes, tokens, &mut excluded_namespaces);
            },
            None => {},
        }
        match &standard.extension_element_prefixes {
            Some(extension_element_prefixes) => {
                exclude_prefixes(
                    &expanded_prefixes,
                    extension_element_prefixes,
                    &mut excluded_namespaces,
                );
            },
            None => {},
        }
        let extension_element_prefixes = match standard.extension_element_prefixes {
            Some(added) => {
                let mut all = clone_strings(&self.extension_element_prefixes);
                let mut added = added;
                let ghost first = all@;
                let ghost second = added@;
                all.append(&mut added);
                assert(strings_view(all@) =~= strings_view(first) + strings_view(second));
                all
            },
            None => clone_strings(&self.extension_element_prefixes),
        };
        let r = Context {
            prefixes: expanded_prefixes,
            variable_names: string_set_clone(&self.variable_names),
            default_collation,
            default_mode,
            default_validation,
            expand_text,
            version,
            xpath_default_namespace,
            excluded_namespaces,
            extension_element_prefixes,
            literal_result_element_prefixes: string_map_clone(
                &self.literal_result_element_prefixes,
            ),
        };
        assert(r@ =~= spec_with_standard(self@, string_map_contents(*namespaces), sv));
        r
    }

    /// The entries among `entries` that a literal result element declares
    /// in the result; `entries` are those of the in-scope namespaces.
    fn declared_entries(&self, entries: &Vec<(String, String)>) -> (r: Vec<(String, String)>)
        requires
            forall|j: int|
                0 <= j < entries.len() ==> self@.prefixes.contains_key(#[trigger] entries@[j].0@)
                    && self@.prefixes[entries@[j].0@] == entries@[j].1@,
            forall|j: int, k: int|
                0 <= j < entries.len() && 0 <= k < entries.len() && j != k ==> #[trigger] entries@[j].0@
                    != #[trigger] entries@[k].0@,
        ensures
            forall|k: int|
                0 <= k < r.len() ==> declares_namespace(
                    self@,
                    #[trigger] r@[k].0@,
                    r@[k].1@,
                ),
            forall|k1: int, k2: int|
                0 <= k1 < r.len() && 0 <= k2 < r.len() && k1 != k2 ==> #[trigger] r@[k1].0@
                    != #[trigger] r@[k2].0@,
            forall|j: int|
                0 <= j < entries.len() && declares_namespace(
                    self@,
                    #[trigger] entries@[j].0@,
                    entries@[j].1@,
                ) ==> pairs_set(r@).contains(pair_view(entries@[j])),
    {
        let ghost c = self@;
        let xsl = "http://www.w3.org/1999/XSL/Transform".to_owned();
        let mut namespaces: Vec<(String, String)> = Vec::new();
        let ghost mut origin: Seq<int> = Seq::empty();
        for i in 0..entries.len()
            invariant
                c == self@,
                xsl@ == xslt_namespace(),
                forall|j: int|
                    0 <= j < entries.len() ==> c.prefixes.contains_key(#[trigger] entries@[j].0@)
                        && c.prefixes[entries@[j].0@] == entries@[j].1@,
                forall|j: int, k: int|
                    0 <= j < entries.len() && 0 <= k < entries.len() && j != k ==> #[trigger] entries@[j].0@
                        != #[trigger] entries@[k].0@,
                origin.len() == namespaces.len(),
                forall|k: int|
                    0 <= k < namespaces.len() ==> 0 <= #[trigger] origin[k] < i
                        && namespaces@[k].0@ == entries@[origin[k]].0@,
                forall|k: int|
                    0 <= k < namespaces.len() ==> declares_namespace(
                        c,
                        #[trigger] namespaces@[k].0@,
                        namespaces@[k].1@,
                    ),
                forall|k1: int, k2: int|
                    0 <= k1 < namespaces.len() && 0 <= k2 < namespaces.len() && k1 != k2 ==> #[trigger] namespaces@[k1].0@
                        != #[trigger] namespaces@[k2].0@,
                forall|j: int|
                    0 <= j < i && declares_namespace(
                        c,
                        #[trigger] entries@[j].0@,
                        entries@[j].1@,
                    ) ==> pairs_set(namespaces@).contains(pair_view(entries@[j])),
        {
            let prefix = &entries[i].0;
            let namespace = &entries[i].1;
            let declared_before = match string_map_get(
                &self.literal_result_element_prefixes,
                prefix.as_str(),
            ) {
                Some(outer) => *outer == *namespace,
                None => false,
            };
            let is_xsl = *namespace == xsl;
            let excluded = string_set_contains(&self.excluded_namespaces, namespace.as_str());
            let undeclaration = namespace.as_str().is_empty();
            if !declared_before && !is_xsl && !excluded && !undeclaration {
                let ghost before = namespaces@;
                proof {
                    assert forall|k: int| 0 <= k < before.len() implies #[trigger] before[k].0@
                        != prefix@ by {
                        assert(before[k].0@ == entries@[origin[k]].0@);
                    }
                }
                namespaces.push((prefix.clone(), namespace.clone()));
                proof {
                    origin = origin.push(i as int);
                    assert(pair_view(namespaces@[before.len() as int]) == pair_view(entries@[i as int]));
                    assert forall|j: int|
                        0 <= j < i + 1 && declares_namespace(
                            c,
                            #[trigger] entries@[j].0@,
                            entries@[j].1@,
                        ) implies pairs_set(namespaces@).contains(pair_view(entries@[j])) by {
                        if j == i {
                            assert(pair_view(namespaces@[before.len() as int]) == pair_view(entries@[j]));
                        } else {
                            assert(pairs_set(before).contains(pair_view(entries@[j])));
                            let k = choose|k: int|
                                0 <= k < before.len() && #[trigger] pair_view(before[k]) == pair_view(entries@[j]);
                            assert(namespaces@[k] == before[k]);
                        }
                    }
                }
            } else {
                proof {
                    assert(!declares_namespace(c, entries@[i as int].0@, entries@[i as int].1@));
                }
            }
        }
        namespaces
    }

    /// The namespaces a literal result element declares in the result, as
    /// (prefix, URI) pairs sorted by prefix: its in-scope namespaces, except
    /// the XSLT namespace, excluded namespaces (exclude-result-prefixes and
    /// extension element prefixes), the empty namespace of an `xmlns=""`
    /// undeclaration, and namespaces already declared in the result by the
    /// nearest enclosing literal result element. See XSLT 3.0 section 11.1.3.
    pub fn literal_result_element_namespaces(&self) -> (r: Vec<(String, String)>)
        ensures
            strictly_increasing(r@),
            pairs_set(r@) == spec_declared_namespaces(self@),
    {
        let ghost c = self@;
        let entries = string_map_entries(&self.prefixes);
        let namespaces = self.declared_entries(&entries);
        let sorted = sort_pairs(namespaces);
        proof {
            assert forall|pu: (Seq<char>, Seq<char>)| #[trigger]
                pairs_set(sorted@).contains(pu) implies spec_declared_namespaces(c).contains(pu) by {
                let i = choose|i: int| 0 <= i < sorted@.len() && #[trigger] pair_view(sorted@[i]) == pu;
                assert(namespaces@.contains(sorted@[i]));
                let k = choose|k: int| 0 <= k < namespaces@.len() && namespaces@[k] == sorted@[i];
                assert(declares_namespace(c, namespaces@[k].0@, namespaces@[k].1@));
            }
            assert forall|pu: (Seq<char>, Seq<char>)| #[trigger]
                spec_declared_namespaces(c).contains(pu) implies pairs_set(sorted@).contains(pu) by {
                assert(c.prefixes.contains_key(pu.0));
                let j = choose|j: int| 0 <= j < entries@.len() && #[trigger] entries@[j].0@ == pu.0;
                assert(entries@[j].1@ == pu.1);
                assert(declares_namespace(c, entries@[j].0@, entries@[j].1@));
                assert(pairs_set(namespaces@).contains(pair_view(entries@[j])));
                let k = choose|k: int|
                    0 <= k < namespaces@.len() && #[trigger] pair_view(namespaces@[k]) == pair_view(entries@[j]);
                assert(sorted@.contains(namespaces@[k]));
                let i = choose|i: int| 0 <= i < sorted@.len() && sorted@[i] == namespaces@[k];
                assert(pair_view(sorted@[i]) == pu);
            }
            assert(pairs_set(sorted@) =~= spec_declared_namespaces(c));
        }
        sorted
    }

    /// The static namespaces for XPath expressions in this context: the
    /// in-scope namespaces, the `xpath-default-namespace` as the default
    /// element namespace, and the XPath functions namespace as the default
    /// function namespace.
    pub fn namespaces(&self) -> (r: Namespaces)
        ensures
            string_map_contents(r.namespaces) == self@.prefixes,
            r.default_element_namespace@ == self@.xpath_default_namespace,
            r.default_function_namespace@ == fn_namespace(),
    {
        Namespaces {
            namespaces: string_map_clone(&self.prefixes),
            default_element_namespace: self.xpath_default_namespace.clone(),
            default_function_namespace: "http://www.w3.org/2005/xpath-functions".to_owned(),
        }
    }

    /// The known variable names, in `Q{uri}local` form.
    pub fn variable_names(&self) -> (r: &StringSet)
        ensures
            string_set_contents(*r) == self@.variable_names,
    {
        &self.variable_names
    }

    /// What an XPath expression in this context is parsed with.
    pub fn parser_context(&self) -> (r: ParserContext)
        ensures
            string_map_contents(r.namespaces.namespaces) == self@.prefixes,
            r.namespaces.default_element_namespace@ == self@.xpath_default_namespace,
            r.namespaces.default_function_namespace@ == fn_namespace(),
            string_set_contents(r.variable_names) == self@.variable_names,
    {
        let namespaces = self.namespaces();
        ParserContext { namespaces, variable_names: string_set_clone(&self.variable_names) }
    }

    /// The in-scope namespaces: prefix to namespace URI.
    pub fn prefixes(&self) -> (r: &StringMap)
        ensures
            string_map_contents(*r) == self@.prefixes,
    {
        &self.prefixes
    }

    /// The default collations, in order of preference.
    pub fn default_collation(&self) -> (r: &Vec<Uri>)
        ensures
            strings_view(r@) == self@.default_collation,
    {
        &self.default_collation
    }

    /// The default mode.
    pub fn default_mode(&self) -> (r: &DefaultMode)
        ensures
            r@ == self@.default_mode,
    {
        &self.default_mode
    }

    /// The default validation.
    pub fn default_validation(&self) -> (r: DefaultValidation)
        ensures
            r == self@.default_validation,
    {
        self.default_validation
    }

    /// Whether text value templates are enabled.
    pub fn expand_text(&self) -> (r: bool)
        ensures
            r == self@.expand_text,
    {
        self.expand_text
    }

    /// The XSLT version in effect.
    pub fn version(&self) -> (r: Decimal)
        ensures
            r == self@.version,
    {
        self.version
    }

    /// The default namespace of element names in XPath expressions.
    pub fn xpath_default_namespace(&self) -> (r: &Uri)
        ensures
            r@ == self@.xpath_default_namespace,
    {
        &self.xpath_default_namespace
    }

    /// The namespaces excluded from literal result elements.
    pub fn excluded_namespaces(&self) -> (r: &StringSet)
        ensures
            string_set_contents(*r) == self@.excluded_namespaces,
    {
        &self.excluded_namespaces
    }

    /// The extension element prefixes, in the order they were declared.
    pub fn extension_element_prefixes(&self) -> (r: &Vec<Prefix>)
        ensures
            strings_view(r@) == self@.extension_element_prefixes,
    {
        &self.extension_element_prefixes
    }

    /// The in-scope namespaces of the nearest enclosing literal result element.
    pub fn literal_result_element_prefixes(&self) -> (r: &StringMap)
        ensures
            string_map_contents(*r) == self@.literal_result_element_prefixes,
    {
        &self.literal_result_element_prefixes
    }
}

/// The standard attributes of an element that carries none of them.
pub open spec fn no_standard_attributes() -> StandardView {
    StandardView {
        default_collation: None,
        default_mode: None,
        default_validation: None,
        exclude_result_prefixes: None,
        expand_text: None,
        extension_element_prefixes: None,
        version: None,
        xpath_default_namespace: None,
    }
}

/// The children of a literal result element declare none of its namespaces
/// again.
pub proof fn law_children_of_literal_result_element_declare_nothing(c: ContextView)
    ensures
        spec_declared_namespaces(spec_with_literal_result_element(c)) == Set::<
            (Seq<char>, Seq<char>),
        >::empty(),
{
    assert(spec_declared_namespaces(spec_with_literal_result_element(c)) =~= Set::empty());
}

/// Inside a literal result element, a child element with namespace
/// declarations `added` declares exactly the bindings it adds or changes,
/// less the XSLT namespace, excluded namespaces and undeclarations.
pub proof fn law_child_declares_only_new_bindings(
    c: ContextView,
    added: Map<Seq<char>, Seq<char>>,
    prefix: Seq<char>,
    uri: Seq<char>,
)
    ensures
        declares_namespace(
            spec_with_prefixes(spec_with_literal_result_element(c), added),
            prefix,
            uri,
        ) <==> {
            &&& added.contains_key(prefix)
            &&& added[prefix] == uri
            &&& !(c.prefixes.contains_key(prefix) && c.prefixes[prefix] == uri)
            &&& uri != xslt_namespace()
            &&& !c.excluded_namespaces.contains(uri)
            &&& uri.len() > 0
        },
{
}

/// Outside any literal result element, an element declares every in-scope
/// namespace that is not the XSLT namespace, not excluded and not empty.
pub proof fn law_separate_tree_declares_in_scope_namespaces(
    c: ContextView,
    prefix: Seq<char>,
    uri: Seq<char>,
)
    ensures
        declares_namespace(spec_without_literal_result_element(c), prefix, uri) <==> {
            &&& c.prefixes.contains_key(prefix)
            &&& c.prefixes[prefix] == uri
            &&& uri != xslt_namespace()
            &&& !c.excluded_namespaces.contains(uri)
            &&& uri.len() > 0
        },
{
}

/// An element with `exclude-result-prefixes="#all"` excludes every
/// namespace in scope at it: a literal result element in its context
/// declares none.
pub proof fn law_exclude_all_declares_nothing(
    c: ContextView,
    namespaces: Map<Seq<char>, Seq<char>>,
    s: StandardView,
)
    requires
        s.exclude_result_prefixes == Some(ExcludeResultPrefixesView::All),
    ensures
        spec_declared_namespaces(spec_with_standard(c, namespaces, s)) == Set::<
            (Seq<char>, Seq<char>),
        >::empty(),
{
    let r = spec_with_standard(c, namespaces, s);
    assert forall|pu: (Seq<char>, Seq<char>)| !#[trigger] spec_declared_namespaces(r).contains(pu) by {
        if r.prefixes.contains_key(pu.0) && r.prefixes[pu.0] == pu.1 {
            assert(r.prefixes.values().contains(pu.1));
        }
    }
    assert(spec_declared_namespaces(r) =~= Set::empty());
}

/// The namespaces bound to extension element prefixes are excluded: a
/// literal result element in the element's context declares none of them.
pub proof fn law_extension_namespaces_are_not_declared(
    c: ContextView,
    namespaces: Map<Seq<char>, Seq<char>>,
    s: StandardView,
    i: int,
    prefix: Seq<char>,
)
    requires
        s.extension_element_prefixes matches Some(ps) && 0 <= i < ps.len() && c.prefixes.union_prefer_right(
            namespaces,
        ).contains_key(ps[i]),
    ensures
        !declares_namespace(
            spec_with_standard(c, namespaces, s),
            prefix,
            c.prefixes.union_prefer_right(namespaces)[s.extension_element_prefixes->0[i]],
        ),
{
    let expanded = c.prefixes.union_prefer_right(namespaces);
    let ps = s.extension_element_prefixes->0;
    assert(designated_namespaces(expanded, ps).contains(expanded[ps[i]]));
}

/// Excluded namespaces accumulate: an element never un-excludes one.
pub proof fn law_excluded_namespaces_accumulate(
    c: ContextView,
    namespaces: Map<Seq<char>, Seq<char>>,
    s: StandardView,
)
    ensures
        c.excluded_namespaces.subset_of(spec_with_standard(c, namespaces, s).excluded_namespaces),
{
}

/// An element with no namespace declaration and no standard attribute
/// leaves the context as it is.
pub proof fn law_no_standard_attributes_change_nothing(c: ContextView)
    ensures
        spec_with_standard(c, Map::empty(), no_standard_attributes()) == c,
{
    let r = spec_with_standard(c, Map::empty(), no_standard_attributes());
    assert(r.prefixes =~= c.prefixes);
    assert(r.excluded_namespaces =~= c.excluded_namespaces);
    assert(r =~= c);
}

/// The static standard attributes act as the standard attributes that carry
/// only `xpath-default-namespace`.
pub proof fn law_static_standard_is_standard_with_xpath_default_namespace(
    c: ContextView,
    namespaces: Map<Seq<char>, Seq<char>>,
    xpath_default_namespace: Option<Seq<char>>,
)
    ensures
        spec_with_static_standard(c, namespaces, xpath_default_namespace) == spec_with_standard(
            c,
            namespaces,
            StandardView { xpath_default_namespace, ..no_standard_attributes() },
        ),
{
    let s = StandardView { xpath_default_namespace, ..no_standard_attributes() };
    let r = spec_with_standard(c, namespaces, s);
    assert(r.excluded_namespaces =~= c.excluded_namespaces);
    assert(spec_with_static_standard(c, namespaces, xpath_default_namespace) =~= r);
}

/// Adding namespaces twice adds their union, the later ones winning.
pub proof fn law_with_prefixes_composes(
    c: ContextView,
    first: Map<Seq<char>, Seq<char>>,
    second: Map<Seq<char>, Seq<char>>,
)
    ensures
        spec_with_prefixes(spec_with_prefixes(c, first), second) == spec_with_prefixes(
            c,
            first.union_prefer_right(second),
        ),
{
    assert(c.prefixes.union_prefer_right(first).union_prefer_right(second) =~= c.prefixes.union_prefer_right(
        first.union_prefer_right(second),
    ));
    assert(spec_with_prefixes(spec_with_prefixes(c, first), second) =~= spec_with_prefixes(
        c,
        first.union_prefer_right(second),
    ));
}

/// Two different variables made known are both known, as different names.
pub proof fn law_distinct_variable_names_are_kept(
    c: ContextView,
    first: (Seq<char>, Seq<char>),
    second: (Seq<char>, Seq<char>),
)
    requires
        is_local_name(first.1),
        is_local_name(second.1),
        first != second,
    ensures
        ({
            let r = spec_with_variable_name(spec_with_variable_name(c, first), second);
            &&& r.variable_names.contains(spec_eqname(first.0, first.1))
            &&& r.variable_names.contains(spec_eqname(second.0, second.1))
            &&& spec_eqname(first.0, first.1) != spec_eqname(second.0, second.1)
        }),
{
    if spec_eqname(first.0, first.1) == spec_eqname(second.0, second.1) {
        law_eqname_injective(first.0, first.1, second.0, second.1);
    }
}

/// Making a variable known twice is making it known once.
pub proof fn law_with_variable_name_idempotent(c: ContextView, name: (Seq<char>, Seq<char>))
    ensures
        spec_with_variable_name(spec_with_variable_name(c, name), name) == spec_with_variable_name(
            c,
            name,
        ),
{
    assert(spec_with_variable_name(spec_with_variable_name(c, name), name) =~= spec_with_variable_name(
        c,
        name,
    ));
}

/// The context made with given namespaces is the empty context with those
/// namespaces added.
pub proof fn law_new_is_empty_with_prefixes(prefixes: Map<Seq<char>, Seq<char>>)
    ensures
        (ContextView { prefixes, ..spec_empty() }) == spec_with_prefixes(spec_empty(), prefixes),
{
    assert(Map::<Seq<char>, Seq<char>>::empty().union_prefer_right(prefixes) =~= prefixes);
}

/// Each standard attribute that an element carries replaces the setting of
/// the enclosing context, whatever that setting was; one it does not carry
/// leaves the setting as it was. Its namespace declarations join the
/// in-scope namespaces, replacing those of the same prefix.
pub proof fn law_present_attributes_replace(
    c: ContextView,
    namespaces: Map<Seq<char>, Seq<char>>,
    s: StandardView,
)
    ensures
        ({
            let r = spec_with_standard(c, namespaces, s);
            &&& s.expand_text matches Some(b) ==> r.expand_text == b
            &&& s.expand_text is None ==> r.expand_text == c.expand_text
            &&& s.xpath_default_namespace matches Some(u) ==> r.xpath_default_namespace == u
            &&& s.xpath_default_namespace is None ==> r.xpath_default_namespace
                == c.xpath_default_namespace
            &&& s.default_collation matches Some(v) ==> r.default_collation == v
            &&& s.default_collation is None ==> r.default_collation == c.default_collation
            &&& s.default_mode matches Some(m) ==> r.default_mode == m
            &&& s.default_mode is None ==> r.default_mode == c.default_mode
            &&& s.default_validation matches Some(v) ==> r.default_validation == v
            &&& s.default_validation is None ==> r.default_validation == c.default_validation
            &&& s.version matches Some(v) ==> r.version == v
            &&& s.version is None ==> r.version == c.version
            &&& r.variable_names == c.variable_names
            &&& r.literal_result_element_prefixes == c.literal_result_element_prefixes
            &&& forall|p: Seq<char>|
                #![trigger r.prefixes.contains_key(p)]
                {
                    &&& r.prefixes.contains_key(p) <==> (namespaces.contains_key(p)
                        || c.prefixes.contains_key(p))
                    &&& namespaces.contains_key(p) ==> r.prefixes[p] == namespaces[p]
                    &&& !namespaces.contains_key(p) && c.prefixes.contains_key(p) ==> r.prefixes[p]
                        == c.prefixes[p]
                }
        }),
{
}

/// An element's `xpath-default-namespace` replaces the enclosing one,
/// whatever that was; without the attribute the enclosing one stays.
pub proof fn law_static_standard_replaces_xpath_default_namespace(
    c: ContextView,
    namespaces: Map<Seq<char>, Seq<char>>,
    xpath_default_namespace: Option<Seq<char>>,
)
    ensures
        xpath_default_namespace matches Some(u) ==> spec_with_static_standard(
            c,
            namespaces,
            xpath_default_namespace,
        ).xpath_default_namespace == u,
        xpath_default_namespace is None ==> spec_with_static_standard(
            c,
            namespaces,
            xpath_default_namespace,
        ).xpath_default_namespace == c.xpath_default_namespace,
        spec_with_static_standard(c, namespaces, xpath_default_namespace).expand_text
            == c.expand_text,
        spec_with_static_standard(c, namespaces, xpath_default_namespace).excluded_namespaces
            == c.excluded_namespaces,
{
}

/// A namespace is excluded after an element exactly where it was excluded
/// before, or is bound, in the in-scope namespaces at the element, to one of
/// the prefixes that its `exclude-result-prefixes` lists (to any prefix for
/// `#all`) or to one of the prefixes that its `extension-element-prefixes`
/// lists. A namespace bound only to prefixes that neither lists (such as the
/// default namespace where `#default` is not listed) is not excluded.
pub proof fn law_excluded_namespaces_are_those_designated(
    c: ContextView,
    namespaces: Map<Seq<char>, Seq<char>>,
    s: StandardView,
    u: Seq<char>,
)
    ensures
        ({
            let expanded = c.prefixes.union_prefer_right(namespaces);
            spec_with_standard(c, namespaces, s).excluded_namespaces.contains(u) <==> {
                ||| c.excluded_namespaces.contains(u)
                ||| (s.exclude_result_prefixes == Some(ExcludeResultPrefixesView::All) && exists|
                    p: Seq<char>,
                | #[trigger] expanded.contains_key(p) && expanded[p] == u)
                ||| (s.exclude_result_prefixes matches Some(ExcludeResultPrefixesView::Prefixes(ps))
                    && exists|i: int|
                    0 <= i < ps.len() && #[trigger] expanded.contains_key(ps[i]) && expanded[ps[i]]
                        == u)
                ||| (s.extension_element_prefixes matches Some(xs) && exists|i: int|
                    0 <= i < xs.len() && #[trigger] expanded.contains_key(xs[i]) && expanded[xs[i]]
                        == u)
            }
        }),
{
    let expanded = c.prefixes.union_prefer_right(namespaces);
    if s.exclude_result_prefixes == Some(ExcludeResultPrefixesView::All) {
        if expanded.values().contains(u) {
            let p = choose|p: Seq<char>| #[trigger] expanded.contains_key(p) && expanded[p] == u;
        }
        if exists|p: Seq<char>| #[trigger] expanded.contains_key(p) && expanded[p] == u {
            let p = choose|p: Seq<char>| #[trigger] expanded.contains_key(p) && expanded[p] == u;
            assert(expanded.values().contains(u));
        }
    }
}

} // verus!
