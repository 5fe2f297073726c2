use vstd::prelude::*;

use vstd::string::StrSliceExecFns;
use vstd::string::StringExecFns;

use crate::decimal::Decimal;

verus! {

/// A namespace URI or a collation URI.
pub type Uri = String;

/// A namespace prefix; the empty string is the default namespace.
pub type Prefix = String;

/// The characters of each string of a vector.
pub open spec fn strings_view(v: Seq<String>) -> Seq<Seq<char>> {
    v.map_values(|s: String| s@)
}

/// The URI-qualified form `Q{uri}local` of an expanded name.
pub open spec fn spec_eqname(namespace: Seq<char>, local_name: Seq<char>) -> Seq<char> {
    seq!['Q', '{'] + namespace + seq!['}'] + local_name
}

/// Whether `l` can be the local name of an expanded name: local names are
/// NCNames, so in particular they hold no `}`.
pub open spec fn is_local_name(l: Seq<char>) -> bool {
    !l.contains('}')
}

/// Two names whose local names hold no `}` have the same `Q{uri}local`
/// form only where they are the same name.
pub proof fn law_eqname_injective(
    namespace1: Seq<char>,
    local1: Seq<char>,
    namespace2: Seq<char>,
    local2: Seq<char>,
)
    requires
        is_local_name(local1),
        is_local_name(local2),
        spec_eqname(namespace1, local1) == spec_eqname(namespace2, local2),
    ensures
        namespace1 == namespace2,
        local1 == local2,
{
    let s = spec_eqname(namespace1, local1);
    let t = spec_eqname(namespace2, local2);
    let p1: int = (namespace1.len() + 2) as int;
    let p2: int = (namespace2.len() + 2) as int;
    assert(s[p1] == '}');
    assert(t[p2] == '}');
    assert forall|i: int| p1 < i < s.len() implies s[i] != '}' by {
        assert(s[i] == local1[i - p1 - 1]);
        if s[i] == '}' {
            assert(local1.contains('}'));
        }
    }
    assert forall|i: int| p2 < i < t.len() implies t[i] != '}' by {
        assert(t[i] == local2[i - p2 - 1]);
        if t[i] == '}' {
            assert(local2.contains('}'));
        }
    }
    assert(p1 == p2);
    assert(namespace1 =~= s.subrange(2, p1));
    assert(namespace2 =~= t.subrange(2, p2));
    assert(local1 =~= s.subrange(p1 + 1, s.len() as int));
    assert(local2 =~= t.subrange(p2 + 1, t.len() as int));
}

/// An expanded name: a namespace URI (empty for no namespace) and a local
/// name, which holds no `}`.
#[derive(Debug, PartialEq, Eq)]
pub struct Name {
    namespace: String,
    local_name: String,
}

impl View for Name {
    type V = (Seq<char>, Seq<char>);

    closed spec fn view(&self) -> (Seq<char>, Seq<char>) {
        (self.namespace@, self.local_name@)
    }
}

impl Name {
    /// The local name holds no `}`.
    #[verifier::type_invariant]
    closed spec fn inv(self) -> bool {
        is_local_name(self.local_name@)
    }

    /// The name `local_name` in the namespace `namespace`; `None` where the
    /// local name holds a `}`, which no local name does.
    pub fn new(namespace: String, local_name: String) -> (r: Option<Name>)
        ensures
            r is Some <==> is_local_name(local_name@),
            r matches Some(n) ==> n@ == (namespace@, local_name@),
    {
        let n = local_name.as_str().unicode_len();
        let mut i: usize = 0;
        while i < n
            invariant
                n == local_name@.len(),
                i <= n,
                forall|j: int| 0 <= j < i ==> local_name@[j] != '}',
            decreases n - i,
        {
            if local_name.as_str().get_char(i) == '}' {
                return None;
            }
            i = i + 1;
        }
        Some(Name { namespace, local_name })
    }

    /// The namespace URI.
    pub fn namespace(&self) -> (r: &String)
        ensures
            r@ == self@.0,
    {
        &self.namespace
    }

    /// The local name, which holds no `}`.
    pub fn local_name(&self) -> (r: &String)
        ensures
            r@ == self@.1,
            is_local_name(r@),
    {
        proof {
            use_type_invariant(self);
        }
        &self.local_name
    }

    /// The URI-qualified form `Q{uri}local` of the name.
    pub fn eqname(&self) -> (r: String)
        ensures
            r@ == spec_eqname(self@.0, self@.1),
    {
        let mut s = "Q{".to_owned();
        s.append(self.namespace.as_str());
        s.append("}");
        s.append(self.local_name.as_str());
        proof {
            reveal_strlit("Q{");
            reveal_strlit("}");
            assert(s@ =~= spec_eqname(self.namespace@, self.local_name@));
        }
        s
    }
}

impl Clone for Name {
    /// A copy of the name.
    fn clone(&self) -> (r: Name)
        ensures
            r@ == self@,
    {
        proof {
            use_type_invariant(self);
        }
        Name { namespace: self.namespace.clone(), local_name: self.local_name.clone() }
    }
}

/// The `default-mode` of a stylesheet element: the unnamed mode, or a
/// named one.
#[derive(Debug, Clone, PartialEq, Eq)]
pub enum DefaultMode {
    Unnamed,
    EQName(Name),
}

/// The model of a default mode.
pub enum DefaultModeView {
    Unnamed,
    EQName(Seq<char>, Seq<char>),
}

impl View for DefaultMode {
    type V = DefaultModeView;

    open spec fn view(&self) -> DefaultModeView {
        match self {
            DefaultMode::Unnamed => DefaultModeView::Unnamed,
            DefaultMode::EQName(n) => DefaultModeView::EQName(n@.0, n@.1),
        }
    }
}

impl DefaultMode {
    /// A copy of the mode.
    pub fn duplicate(&self) -> (r: DefaultMode)
        ensures
            r@ == self@,
    {
        match self {
            DefaultMode::Unnamed => DefaultMode::Unnamed,
            DefaultMode::EQName(n) => DefaultMode::EQName(n.clone()),
        }
    }
}

/// The `default-validation` of a stylesheet element.
#[derive(Debug, Clone, Copy, PartialEq, Eq, Structural)]
pub enum DefaultValidation {
    Preserve,
    Strip,
}

/// One token of `exclude-result-prefixes`: `#default`, or a prefix.
#[derive(Debug, Clone, PartialEq, Eq)]
pub enum ExcludeResultPrefix {
    Default,
    Prefix(Prefix),
}

impl View for ExcludeResultPrefix {
    type V = Seq<char>;

    /// The prefix that the token designates: `#default` is the empty prefix.
    open spec fn view(&self) -> Seq<char> {
        match self {
            ExcludeResultPrefix::Default => Seq::empty(),
            ExcludeResultPrefix::Prefix(p) => p@,
        }
    }
}

/// The value of `exclude-result-prefixes`: `#all`, or a list of tokens.
#[derive(Debug, Clone, PartialEq, Eq)]
pub enum ExcludeResultPrefixes {
    All,
    Prefixes(Vec<ExcludeResultPrefix>),
}

/// The model of `exclude-result-prefixes`: `#all`, or the prefixes designated.
pub enum ExcludeResultPrefixesView {
    All,
    Prefixes(Seq<Seq<char>>),
}

impl View for ExcludeResultPrefixes {
    type V = ExcludeResultPrefixesView;

    open spec fn view(&self) -> ExcludeResultPrefixesView {
        match self {
            ExcludeResultPrefixes::All => ExcludeResultPrefixesView::All,
            ExcludeResultPrefixes::Prefixes(v) => ExcludeResultPrefixesView::Prefixes(
                v@.map_values(|e: ExcludeResultPrefix| e@),
            ),
        }
    }
}

/// The standard attributes of an XSLT element (XSLT 3.0 section 3.5):
/// each is `None` where the element does not carry it.
#[derive(Debug, Clone, PartialEq, Eq)]
pub struct Standard {
    pub default_collation: Option<Vec<Uri>>,
    pub default_mode: Option<DefaultMode>,
    pub default_validation: Option<DefaultValidation>,
    pub exclude_result_prefixes: Option<ExcludeResultPrefixes>,
    pub expand_text: Option<bool>,
    pub extension_element_prefixes: Option<Vec<Prefix>>,
    pub version: Option<Decimal>,
    pub xpath_default_namespace: Option<Uri>,
}

/// The model of the standard attributes.
pub struct StandardView {
    pub default_collation: Option<Seq<Seq<char>>>,
    pub default_mode: Option<DefaultModeView>,
    pub default_validation: Option<DefaultValidation>,
    pub exclude_result_prefixes: Option<ExcludeResultPrefixesView>,
    pub expand_text: Option<bool>,
    pub extension_element_prefixes: Option<Seq<Seq<char>>>,
    pub version: Option<Decimal>,
    pub xpath_default_namespace: Option<Seq<char>>,
}

impl View for Standard {
    type V = StandardView;

    open spec fn view(&self) -> StandardView {
        StandardView {
            default_collation: match self.default_collation {
                Some(v) => Some(strings_view(v@)),
                None => None,
            },
            default_mode: match self.default_mode {
                Some(m) => Some(m@),
                None => None,
            },
            default_validation: self.default_validation,
            exclude_result_prefixes: match self.exclude_result_prefixes {
                Some(e) => Some(e@),
                None => None,
            },
            expand_text: self.expand_text,
            extension_element_prefixes: match self.extension_element_prefixes {
                Some(v) => Some(strings_view(v@)),
                None => None,
            },
            version: self.version,
            xpath_default_namespace: match self.xpath_default_namespace {
                Some(u) => Some(u@),
                None => None,
            },
        }
    }
}

/// The standard attributes that take effect before `use-when` is evaluated
/// (XSLT 3.0 section 3.13.1): only `xpath-default-namespace` is read here.
#[derive(Debug, Clone, PartialEq, Eq)]
pub struct StaticStandard {
    pub xpath_default_namespace: Option<Uri>,
}

} // verus!
