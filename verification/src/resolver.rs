//! The provider resolver: the declared-variable table, an ordered chain of
//! providers, single-variable and template resolution, and pre-flight
//! validation that every declared variable is resolvable.

use vstd::prelude::*;
use crate::errors::{ConfigError, ResolveError, ValidationError};
use crate::key::{Key, key_wf};
use crate::provider::{
    Provider, ProviderVariableKind, opt_view, first_answer, has_dynamic, all_static, static_has,
    lemma_first_answer_skip, lemma_all_none_first_answer,
};
use crate::template::{TemplatePart, PartView, parse_template, parts_view};
use vstd::string::StrSliceExecFns;
use vstd::string::StringExecFns;

verus! {

/// A declared variable: an optional default value, and whether the resolved
/// value is secret. `secret` only governs display, never resolution.
#[derive(Debug)]
pub struct Variable {
    pub default: Option<String>,
    pub secret: bool,
}

impl Variable {
    /// A copy of the declaration with the same content.
    pub fn clone_variable(&self) -> (r: Variable)
        ensures
            opt_view(r.default) == opt_view(self.default),
            r.secret == self.secret,
    {
        let default = match &self.default {
            Some(s) => Some(String::from_str(s.as_str())),
            None => None,
        };
        Variable { default, secret: self.secret }
    }
}

/// Looks `name` up in the declaration table: `None` when it is not declared,
/// otherwise the declaration's optional default. The first entry with the
/// name decides.
pub open spec fn lookup_default(decls: Seq<(Key, Variable)>, name: Seq<char>) -> Option<
    Option<Seq<char>>,
>
    decreases decls.len(),
{
    if decls.len() == 0 {
        None
    } else if decls[0].0@ == name {
        Some(opt_view(decls[0].1.default))
    } else {
        lookup_default(decls.drop_first(), name)
    }
}

/// True when `name` is in the declaration table.
pub open spec fn is_declared(decls: Seq<(Key, Variable)>, name: Seq<char>) -> bool {
    lookup_default(decls, name) is Some
}

/// The declared default of `name`; meaningful only when it is declared.
pub open spec fn decl_default(decls: Seq<(Key, Variable)>, name: Seq<char>) -> Option<Seq<char>> {
    lookup_default(decls, name)->Some_0
}

/// What resolution of `name` yields when every provider answers as its
/// table says: the first provider answer, or else the declared default.
pub open spec fn resolved_value<P: Provider>(
    decls: Seq<(Key, Variable)>,
    ps: Seq<P>,
    name: Seq<char>,
) -> Option<Seq<char>> {
    match first_answer(ps, name) {
        Some(v) => Some(v),
        None => decl_default(decls, name),
    }
}

/// True when pre-flight validation counts `name` as resolvable: it has a
/// default, or some provider is dynamic, or a static provider has a value.
pub open spec fn resolvable<P: Provider>(
    default: Option<Seq<char>>,
    ps: Seq<P>,
    name: Seq<char>,
) -> bool {
    default is Some || has_dynamic(ps) || static_has(ps, name)
}

/// The names of the declared variables that pre-flight validation finds
/// unresolvable, in declaration order.
pub open spec fn missing_names<P: Provider>(decls: Seq<(Key, Variable)>, ps: Seq<P>) -> Seq<
    Seq<char>,
>
    decreases decls.len(),
{
    if decls.len() == 0 {
        Seq::empty()
    } else {
        missing_names(decls.drop_last(), ps) + (if !resolvable(
            opt_view(decls.last().1.default),
            ps,
            decls.last().0@,
        ) {
            seq![decls.last().0@]
        } else {
            Seq::empty()
        })
    }
}

/// The texts of a sequence of owned strings.
pub open spec fn names_view(ks: Seq<String>) -> Seq<Seq<char>> {
    ks.map_values(|s: String| s@)
}

/// A declared variable with no default, no dynamic provider in the chain,
/// and no static provider value is unresolvable: validation cannot count
/// it as covered.
pub proof fn lemma_unresolvable_variable<P: Provider>(
    default: Option<Seq<char>>,
    ps: Seq<P>,
    name: Seq<char>,
)
    requires
        default is None,
        !has_dynamic(ps),
        forall|i: int| 0 <= i < ps.len() ==> (#[trigger] ps[i].answer(name)) is None,
    ensures
        !resolvable(default, ps, name),
{
}

/// Every unresolvable declared variable is named in the validation
/// report, not only the first.
pub proof fn lemma_missing_reported<P: Provider>(decls: Seq<(Key, Variable)>, ps: Seq<P>, i: int)
    requires
        0 <= i < decls.len(),
        !resolvable(opt_view(decls[i].1.default), ps, decls[i].0@),
    ensures
        missing_names(decls, ps).contains(decls[i].0@),
    decreases decls.len(),
{
    if i == decls.len() - 1 {
        assert(decls.last() == decls[i]);
        let tail = seq![decls.last().0@];
        assert(missing_names(decls, ps) == missing_names(decls.drop_last(), ps) + tail);
        let m = missing_names(decls, ps);
        assert(m[m.len() - 1] == decls[i].0@);
    } else {
        assert(decls.drop_last()[i] == decls[i]);
        lemma_missing_reported(decls.drop_last(), ps, i);
        let head = missing_names(decls.drop_last(), ps);
        let j = choose|j: int| 0 <= j < head.len() && head[j] == decls[i].0@;
        assert(missing_names(decls, ps)[j] == decls[i].0@);
    }
}

/// Validation finds nothing missing exactly when every declared variable is
/// resolvable.
pub proof fn lemma_missing_names_empty_iff<P: Provider>(decls: Seq<(Key, Variable)>, ps: Seq<P>)
    ensures
        (missing_names(decls, ps).len() == 0) <==> (forall|i: int|
            0 <= i < decls.len() ==> resolvable(
                opt_view((#[trigger] decls[i]).1.default),
                ps,
                decls[i].0@,
            )),
    decreases decls.len(),
{
    if decls.len() > 0 {
        lemma_missing_names_empty_iff(decls.drop_last(), ps);
        assert forall|i: int| 0 <= i < decls.len() - 1 implies decls.drop_last()[i] == decls[i] by {}
        if missing_names(decls, ps).len() == 0 {
            assert forall|i: int| 0 <= i < decls.len() implies resolvable(
                opt_view((#[trigger] decls[i]).1.default),
                ps,
                decls[i].0@,
            ) by {
                if i < decls.len() - 1 {
                    assert(decls.drop_last()[i] == decls[i]);
                } else {
                    assert(decls.last() == decls[i]);
                }
            }
        } else {
        }
        if forall|i: int|
            0 <= i < decls.len() ==> resolvable(
                opt_view((#[trigger] decls[i]).1.default),
                ps,
                decls[i].0@,
            ) {
            assert(resolvable(opt_view(decls.last().1.default), ps, decls.last().0@));
        }
    }
}

/// The outcome of processing a parsed template against the declaration
/// table and the providers' answer tables, left to right: the first
/// undeclared or unresolvable placeholder decides, otherwise the fully
/// substituted text.
pub enum TemplateOutcome {
    Undeclared(Seq<char>),
    Undefined(Seq<char>),
    Done(Seq<char>),
}

/// Prefixes `t` to a successful outcome; failures pass through.
pub open spec fn prepend(t: Seq<char>, o: TemplateOutcome) -> TemplateOutcome {
    match o {
        TemplateOutcome::Done(r) => TemplateOutcome::Done(t + r),
        _ => o,
    }
}

/// Processes parsed template parts left to right, substituting each
/// placeholder with its resolved value.
pub open spec fn process_parts<P: Provider>(
    decls: Seq<(Key, Variable)>,
    ps: Seq<P>,
    parts: Seq<PartView>,
) -> TemplateOutcome
    decreases parts.len(),
{
    if parts.len() == 0 {
        TemplateOutcome::Done(Seq::empty())
    } else {
        match parts[0] {
            PartView::Lit(t) => prepend(t, process_parts(decls, ps, parts.drop_first())),
            PartView::Var(k) => if !is_declared(decls, k) {
                TemplateOutcome::Undeclared(k)
            } else {
                match resolved_value(decls, ps, k) {
                    None => TemplateOutcome::Undefined(k),
                    Some(v) => prepend(v, process_parts(decls, ps, parts.drop_first())),
                }
            },
        }
    }
}

/// Owns the declared-variable table and the ordered provider chain. Both
/// are fixed once the resolver is shared: providers can only be added
/// through `&mut self`, which shared ownership no longer hands out.
pub struct ProviderResolver<P: Provider> {
    pub decls: Vec<(Key, Variable)>,
    pub providers: Vec<P>,
}

impl<P: Provider> ProviderResolver<P> {
    /// The resolver's invariant: every declared name is a well-formed key,
    /// and no name is declared twice.
    pub open spec fn wf(&self) -> bool {
        &&& forall|i: int| 0 <= i < self.decls@.len() ==> (#[trigger] self.decls@[i]).0.wf()
        &&& forall|i: int, j: int|
            0 <= i < j < self.decls@.len() ==> (#[trigger] self.decls@[i]).0@ != (
            #[trigger] self.decls@[j]).0@
    }

    /// Builds a resolver from the declared-variable table, with an empty
    /// provider chain. Fails exactly when a declared name is not a
    /// well-formed key or is declared twice.
    pub fn new(variables: Vec<(String, Variable)>) -> (r: Result<Self, ConfigError>)
        ensures
            match r {
                Ok(res) => {
                    &&& res.wf()
                    &&& res.providers@.len() == 0
                    &&& res.decls@.len() == variables@.len()
                    &&& forall|i: int|
                        0 <= i < variables@.len() ==> (#[trigger] res.decls@[i]).0@
                            == variables@[i].0@ && opt_view(res.decls@[i].1.default) == opt_view(
                            variables@[i].1.default,
                        ) && res.decls@[i].1.secret == variables@[i].1.secret
                },
                Err(ConfigError::InvalidName(n)) => exists|i: int|
                    0 <= i < variables@.len() && (#[trigger] variables@[i]).0@ == n@ && !key_wf(n@),
                Err(ConfigError::DuplicateName(n)) => exists|i: int, j: int|
                    0 <= i < j < variables@.len() && (#[trigger] variables@[i]).0@ == (
                    #[trigger] variables@[j]).0@ && variables@[j].0@ == n@,
                Err(ConfigError::InvalidNetwork(_)) => false,
            },
            (forall|i: int| 0 <= i < variables@.len() ==> key_wf((#[trigger] variables@[i]).0@))
                && (forall|i: int, j: int|
                0 <= i < j < variables@.len() ==> (#[trigger] variables@[i]).0@ != (
                #[trigger] variables@[j]).0@) ==> r is Ok,
    {
        let mut decls: Vec<(Key, Variable)> = Vec::new();
        let mut i: usize = 0;
        while i < variables.len()
            invariant
                i <= variables@.len(),
                decls@.len() == i,
                forall|k: int|
                    0 <= k < i ==> (#[trigger] decls@[k]).0@ == variables@[k].0@ && opt_view(
                        decls@[k].1.default,
                    ) == opt_view(variables@[k].1.default) && decls@[k].1.secret
                        == variables@[k].1.secret,
                forall|k: int| 0 <= k < i ==> (#[trigger] decls@[k]).0.wf(),
                forall|k: int, l: int|
                    0 <= k < l < i ==> (#[trigger] decls@[k]).0@ != (#[trigger] decls@[l]).0@,
            decreases variables@.len() - i,
        {
            let entry = &variables[i];
            let key = match Key::new(String::from_str(entry.0.as_str())) {
                Ok(k) => k,
                Err(e) => {
                    return Err(e);
                },
            };
            let mut k: usize = 0;
            while k < decls.len()
                invariant
                    k <= decls@.len(),
                    i < variables@.len(),
                    decls@.len() == i,
                    key@ == variables@[i as int].0@,
                    forall|m: int|
                        0 <= m < i ==> (#[trigger] decls@[m]).0@ == variables@[m].0@,
                    forall|m: int| 0 <= m < k ==> (#[trigger] decls@[m]).0@ != key@,
                decreases decls@.len() - k,
            {
                if decls[k].0.eq_key(&key) {
                    proof {
                        assert(variables@[k as int].0@ == variables@[i as int].0@);
                    }
                    return Err(ConfigError::DuplicateName(key.to_text()));
                }
                k += 1;
            }
            decls.push((key, entry.1.clone_variable()));
            i += 1;
        }
        Ok(ProviderResolver { decls, providers: Vec::new() })
    }

    /// Appends a provider to the chain. Registration order is significant:
    /// the first provider with an answer wins. Must only be called while
    /// the resolver is still exclusively owned, before any resolution.
    pub fn add_provider(&mut self, provider: P)
        ensures
            final(self).providers@ == old(self).providers@.push(provider),
            final(self).decls@ == old(self).decls@,
    {
        self.providers.push(provider);
    }

    /// Looks a key up in the declaration table; `None` means undeclared,
    /// `Some(d)` hands back a copy of the declared default.
    fn lookup(&self, key: &Key) -> (r: Option<Option<String>>)
        ensures
            match r {
                Some(d) => lookup_default(self.decls@, key@) == Some(opt_view(d)),
                None => lookup_default(self.decls@, key@) is None,
            },
    {
        let n = self.decls.len();
        proof {
            assert(self.decls@.skip(0) =~= self.decls@);
        }
        let mut i: usize = 0;
        while i < n
            invariant
                i <= n == self.decls@.len(),
                lookup_default(self.decls@, key@) == lookup_default(
                    self.decls@.skip(i as int),
                    key@,
                ),
            decreases n - i,
        {
            proof {
                assert(self.decls@.skip(i as int)[0] == self.decls@[i as int]);
                assert(self.decls@.skip(i as int).drop_first() =~= self.decls@.skip(i + 1));
            }
            let entry = &self.decls[i];
            if entry.0.eq_key(key) {
                let d = match &entry.1.default {
                    Some(s) => Some(String::from_str(s.as_str())),
                    None => None,
                };
                return Some(d);
            }
            i += 1;
        }
        proof {
            assert(self.decls@.skip(n as int) =~= Seq::<(Key, Variable)>::empty());
        }
        None
    }

    /// Resolves one declared variable: providers are queried in
    /// registration order and the first answer wins; with no answer the
    /// declared default applies; with neither, the variable is undefined.
    /// A provider failure stops resolution at once, with no fallback.
    pub fn resolve(&self, key: &Key) -> (r: Result<String, ResolveError>)
        ensures
            (r matches Err(ResolveError::Undeclared(n)) ==> n@ == key@ && !is_declared(
                self.decls@,
                key@,
            )),
            (!is_declared(self.decls@, key@) ==> r matches Err(ResolveError::Undeclared(n))),
            (r matches Ok(v) ==> is_declared(self.decls@, key@) && (all_static(self.providers@)
                ==> Some(v@) == resolved_value(self.decls@, self.providers@, key@))),
            (r matches Err(ResolveError::Undefined(n)) ==> n@ == key@ && is_declared(
                self.decls@,
                key@,
            ) && decl_default(self.decls@, key@) is None && !static_has(self.providers@, key@)),
            (r matches Err(ResolveError::ProviderFailed(_)) ==> self.providers@.len() > 0
                && is_declared(self.decls@, key@)),
            (r matches Err(ResolveError::InvalidTemplate(_)) ==> false),
            (self.providers@.len() == 0 && is_declared(self.decls@, key@) && decl_default(
                self.decls@,
                key@,
            ) is Some ==> (r matches Ok(v) && Some(v@) == decl_default(self.decls@, key@))),
            (self.providers@.len() == 0 && is_declared(self.decls@, key@) && decl_default(
                self.decls@,
                key@,
            ) is None ==> r matches Err(ResolveError::Undefined(_))),
    {
        let default = match self.lookup(key) {
            None => {
                return Err(ResolveError::Undeclared(key.to_text()));
            },
            Some(d) => d,
        };
        let n = self.providers.len();
        let mut i: usize = 0;
        while i < n
            invariant
                i <= n == self.providers@.len(),
                lookup_default(self.decls@, key@) == Some(opt_view(default)),
                forall|j: int|
                    0 <= j < i ==> ((#[trigger] self.providers@[j].kind_spec())
                        is Static ==> self.providers@[j].answer(key@) is None),
            decreases n - i,
        {
            match self.providers[i].get(key) {
                Err(e) => {
                    return Err(ResolveError::ProviderFailed(e.message));
                },
                Ok(Some(v)) => {
                    proof {
                        let ps = self.providers@;
                        if all_static(ps) {
                            assert forall|j: int| 0 <= j < i implies (#[trigger] ps[j].answer(
                                key@,
                            )) is None by {
                                assert(ps[j].kind_spec() is Static);
                            }
                            lemma_first_answer_skip(ps, key@, i as int);
                            assert(ps.skip(i as int)[0] == ps[i as int]);
                            assert(first_answer(ps.skip(i as int), key@) == Some(v@));
                        }
                    }
                    return Ok(v);
                },
                Ok(None) => {
                    i += 1;
                },
            }
        }
        proof {
            let ps = self.providers@;
            if all_static(ps) {
                assert forall|j: int| 0 <= j < ps.len() implies (#[trigger] ps[j].answer(
                    key@,
                )) is None by {
                    assert(ps[j].kind_spec() is Static);
                }
                lemma_all_none_first_answer(ps, key@);
            }
        }
        match default {
            Some(d) => Ok(d),
            None => Err(ResolveError::Undefined(key.to_text())),
        }
    }

    /// Resolves a whole template: parses it, resolves each placeholder left
    /// to right through [`Self::resolve`], and substitutes in place.
    pub fn resolve_template(&self, template: &str) -> (r: Result<String, ResolveError>)
        ensures
            (r matches Err(ResolveError::InvalidTemplate(_)) <==> parse_template(
                template@,
                0,
            ) is None),
            (r matches Err(ResolveError::Undeclared(n)) ==> !is_declared(self.decls@, n@)),
            (r matches Err(ResolveError::ProviderFailed(_)) ==> self.providers@.len() > 0),
            ((r matches Err(ResolveError::ProviderFailed(_)) || r matches Err(
                ResolveError::Undeclared(_),
            ) || r matches Err(ResolveError::Undefined(_))) ==> (parse_template(
                template@,
                0,
            ) matches Some(parts) && exists|i: int| 0 <= i < parts.len() && (#[trigger] parts[i])
                is Var)),
            (all_static(self.providers@) ==> match r {
                Ok(v) => parse_template(template@, 0) matches Some(parts) && process_parts(
                    self.decls@,
                    self.providers@,
                    parts,
                ) == TemplateOutcome::Done(v@),
                Err(ResolveError::Undeclared(n)) => parse_template(template@, 0) matches Some(parts)
                    && process_parts(self.decls@, self.providers@, parts)
                    == TemplateOutcome::Undeclared(n@),
                Err(ResolveError::Undefined(n)) => parse_template(template@, 0) matches Some(parts)
                    && process_parts(self.decls@, self.providers@, parts)
                    == TemplateOutcome::Undefined(n@),
                Err(ResolveError::ProviderFailed(_)) => self.providers@.len() > 0,
                Err(ResolveError::InvalidTemplate(_)) => parse_template(template@, 0) is None,
            }),
    {
        let parts = match crate::template::parse(template) {
            Err(_) => {
                return Err(ResolveError::InvalidTemplate(String::from_str(template)));
            },
            Ok(ps) => ps,
        };
        let ghost pv = parts_view(parts@);
        let ghost decls = self.decls@;
        let ghost ps = self.providers@;
        let mut out = String::new();
        proof {
            assert(pv.skip(0) =~= pv);
            lemma_prepend_empty(process_parts(decls, ps, pv));
        }
        let mut i: usize = 0;
        while i < parts.len()
            invariant
                i <= parts@.len(),
                pv == parts_view(parts@),
                parse_template(template@, 0) == Some(pv),
                decls == self.decls@,
                ps == self.providers@,
                all_static(ps) ==> process_parts(decls, ps, pv) == prepend(
                    out@,
                    process_parts(decls, ps, pv.skip(i as int)),
                ),
            decreases parts@.len() - i,
        {
            proof {
                assert(pv.skip(i as int)[0] == pv[i as int]);
                assert(pv[i as int] == parts@[i as int]@);
                assert(pv.skip(i as int).drop_first() =~= pv.skip(i + 1));
            }
            let ghost out0 = out@;
            let part = &parts[i];
            match part {
                TemplatePart::Lit(t) => {
                    out.append(t.as_str());
                    proof {
                        if all_static(ps) {
                            lemma_prepend_assoc(out0, t@, process_parts(decls, ps, pv.skip(i + 1)));
                        }
                    }
                },
                TemplatePart::Var(k) => {
                    match self.resolve(k) {
                        Ok(v) => {
                            out.append(v.as_str());
                            proof {
                                if all_static(ps) {
                                    assert(resolved_value(decls, ps, k@) == Some(v@));
                                    assert(process_parts(decls, ps, pv.skip(i as int)) == prepend(
                                        v@,
                                        process_parts(decls, ps, pv.skip(i + 1)),
                                    ));
                                    lemma_prepend_assoc(
                                        out0,
                                        v@,
                                        process_parts(decls, ps, pv.skip(i + 1)),
                                    );
                                }
                            }
                        },
                        Err(e) => {
                            proof {
                                assert(0 <= i < pv.len() && pv[i as int] is Var);
                                if all_static(ps) {
                                    match e {
                                        ResolveError::Undefined(_) => {
                                            assert forall|j: int| 0 <= j < ps.len() implies (
                                            #[trigger] ps[j].answer(k@)) is None by {
                                                assert(ps[j].kind_spec() is Static);
                                            }
                                            lemma_all_none_first_answer(ps, k@);
                                            assert(process_parts(decls, ps, pv.skip(i as int))
                                                == TemplateOutcome::Undefined(k@));
                                        },
                                        _ => {},
                                    }
                                }
                            }
                            return Err(e);
                        },
                    }
                },
            }
            i += 1;
        }
        proof {
            assert(pv.skip(parts@.len() as int) =~= Seq::<PartView>::empty());
            if all_static(ps) {
                assert(out@ + Seq::<char>::empty() =~= out@);
            }
        }
        Ok(out)
    }

    /// Pre-flight validation: every declared variable must be resolvable
    /// without querying any dynamic provider. A variable with a default is
    /// resolvable; otherwise the presence of any dynamic provider counts as
    /// resolvable; otherwise the static providers are queried in order. All
    /// unresolvable variables are reported together, in declaration order.
    pub fn validate_variable_existence(&self) -> (r: Result<(), ValidationError>)
        ensures
            (r is Ok ==> forall|i: int|
                0 <= i < self.decls@.len() ==> resolvable(
                    opt_view((#[trigger] self.decls@[i]).1.default),
                    self.providers@,
                    self.decls@[i].0@,
                )),
            ((forall|i: int|
                0 <= i < self.decls@.len() ==> opt_view(
                    (#[trigger] self.decls@[i]).1.default,
                ) is Some) ==> r is Ok),
            (has_dynamic(self.providers@) ==> r is Ok),
            (r matches Err(ValidationError::Missing(ks)) ==> ks@.len() > 0 && names_view(ks@)
                == missing_names(self.decls@, self.providers@)),
            (r matches Err(ValidationError::ProviderFailed(_)) ==> !has_dynamic(self.providers@)
                && self.providers@.len() > 0 && exists|i: int|
                0 <= i < self.decls@.len() && opt_view(
                    (#[trigger] self.decls@[i]).1.default,
                ) is None),
    {
        let has_dyn = self.any_dynamic();
        let ghost decls = self.decls@;
        let ghost ps = self.providers@;
        let mut missing: Vec<String> = Vec::new();
        proof {
            assert(decls.take(0) =~= Seq::<(Key, Variable)>::empty());
            assert(names_view(missing@) =~= missing_names(decls.take(0), ps));
        }
        let mut i: usize = 0;
        while i < self.decls.len()
            invariant
                i <= decls.len(),
                decls == self.decls@,
                ps == self.providers@,
                has_dyn == has_dynamic(ps),
                names_view(missing@) == missing_names(decls.take(i as int), ps),
            decreases decls.len() - i,
        {
            proof {
                assert(decls.take(i + 1).drop_last() =~= decls.take(i as int));
                assert(decls.take(i + 1).last() == decls[i as int]);
            }
            let entry = &self.decls[i];
            let ghost name = decls[i as int].0@;
            let has_default = match &entry.1.default {
                Some(_) => true,
                None => false,
            };
            if !has_default && !has_dyn {
                proof {
                    assert forall|m: int| 0 <= m < ps.len() implies (#[trigger] ps[m].kind_spec())
                        is Static by {
                        if ps[m].kind_spec() is Dynamic {
                            assert(has_dynamic(ps));
                        }
                    }
                }
                let mut found = false;
                let mut j: usize = 0;
                while !found && j < self.providers.len()
                    invariant
                        j <= ps.len(),
                        ps == self.providers@,
                        decls == self.decls@,
                        i < decls.len(),
                        name == decls[i as int].0@,
                        entry.0@ == name,
                        opt_view(decls[i as int].1.default) is None,
                        all_static(ps),
                        found ==> static_has(ps, name),
                        !found ==> forall|m: int|
                            0 <= m < j ==> (#[trigger] ps[m].answer(name)) is None,
                    decreases ps.len() - j + (if found {
                        0int
                    } else {
                        1int
                    }),
                {
                    match self.providers[j].get(&entry.0) {
                        Err(e) => {
                            proof {
                                assert(opt_view(decls[i as int].1.default) is None);
                            }
                            return Err(ValidationError::ProviderFailed(e.message));
                        },
                        Ok(Some(_)) => {
                            proof {
                                assert(ps[j as int].kind_spec() is Static && ps[j as int].answer(
                                    name,
                                ) is Some);
                            }
                            found = true;
                        },
                        Ok(None) => {
                            j += 1;
                        },
                    }
                }
                if !found {
                    proof {
                        assert(!static_has(ps, name));
                        assert(!resolvable(opt_view(decls[i as int].1.default), ps, name));
                    }
                    let ghost missing0 = missing@;
                    missing.push(entry.0.to_text());
                    proof {
                        assert(names_view(missing@) =~= names_view(missing0) + seq![name]);
                    }
                } else {
                    proof {
                        assert(resolvable(opt_view(decls[i as int].1.default), ps, name));
                        assert(missing_names(decls.take(i + 1), ps) =~= missing_names(
                            decls.take(i as int),
                            ps,
                        ));
                    }
                }
            } else {
                proof {
                    assert(resolvable(opt_view(decls[i as int].1.default), ps, name));
                    assert(missing_names(decls.take(i + 1), ps) =~= missing_names(
                        decls.take(i as int),
                        ps,
                    ));
                }
            }
            i += 1;
        }
        proof {
            assert(decls.take(decls.len() as int) =~= decls);
            lemma_missing_names_empty_iff(decls, ps);
        }
        if missing.len() == 0 {
            Ok(())
        } else {
            Err(ValidationError::Missing(missing))
        }
    }

    /// True when some registered provider is dynamic.
    fn any_dynamic(&self) -> (r: bool)
        ensures
            r == has_dynamic(self.providers@),
    {
        let mut i: usize = 0;
        while i < self.providers.len()
            invariant
                i <= self.providers@.len(),
                forall|j: int|
                    0 <= j < i ==> !((#[trigger] self.providers@[j].kind_spec()) is Dynamic),
            decreases self.providers@.len() - i,
        {
            if matches!(self.providers[i].kind(), ProviderVariableKind::Dynamic) {
                return true;
            }
            i += 1;
        }
        false
    }
}

/// Substituting one placeholder between two stretches of literal text
/// yields the enclosing text with the resolved value in place: processing
/// never adds, drops or reorders anything else.
pub proof fn lemma_single_placeholder<P: Provider>(
    decls: Seq<(Key, Variable)>,
    ps: Seq<P>,
    a: Seq<char>,
    k: Seq<char>,
    v: Seq<char>,
    b: Seq<char>,
)
    requires
        is_declared(decls, k),
        resolved_value(decls, ps, k) == Some(v),
    ensures
        process_parts(decls, ps, seq![PartView::Lit(a), PartView::Var(k), PartView::Lit(b)])
            == TemplateOutcome::Done(a + v + b),
{
    let parts = seq![PartView::Lit(a), PartView::Var(k), PartView::Lit(b)];
    let tail1 = parts.drop_first();
    let tail2 = tail1.drop_first();
    assert(tail2.drop_first() =~= Seq::<PartView>::empty());
    assert(tail2[0] == PartView::Lit(b));
    assert(process_parts(decls, ps, tail2.drop_first()) == TemplateOutcome::Done(
        Seq::<char>::empty(),
    ));
    assert(b + Seq::<char>::empty() =~= b);
    assert(process_parts(decls, ps, tail2) == TemplateOutcome::Done(b));
    assert(tail1[0] == PartView::Var(k));
    assert(process_parts(decls, ps, tail1) == TemplateOutcome::Done(v + b));
    assert(parts[0] == PartView::Lit(a));
    assert(a + (v + b) =~= a + v + b);
}

/// A hook that runs the resolver's pre-flight validation when an
/// application is configured, before any component instance executes.
pub struct VariablesValidatorHook;

impl VariablesValidatorHook {
    /// Validates every declared variable of the configured application;
    /// the outcome is exactly that of
    /// [`ProviderResolver::validate_variable_existence`].
    pub fn configure_app<P: Provider>(&self, resolver: &ProviderResolver<P>) -> (r: Result<
        (),
        ValidationError,
    >)
        ensures
            (r is Ok ==> forall|i: int|
                0 <= i < resolver.decls@.len() ==> resolvable(
                    opt_view((#[trigger] resolver.decls@[i]).1.default),
                    resolver.providers@,
                    resolver.decls@[i].0@,
                )),
            ((forall|i: int|
                0 <= i < resolver.decls@.len() ==> opt_view(
                    (#[trigger] resolver.decls@[i]).1.default,
                ) is Some) ==> r is Ok),
            (has_dynamic(resolver.providers@) ==> r is Ok),
            (r matches Err(ValidationError::Missing(ks)) ==> ks@.len() > 0 && names_view(ks@)
                == missing_names(resolver.decls@, resolver.providers@)),
            (r matches Err(ValidationError::ProviderFailed(_)) ==> !has_dynamic(resolver.providers@)
                && resolver.providers@.len() > 0 && exists|i: int|
                0 <= i < resolver.decls@.len() && opt_view(
                    (#[trigger] resolver.decls@[i]).1.default,
                ) is None),
    {
        resolver.validate_variable_existence()
    }
}

/// Prefixing twice is prefixing the concatenation.
proof fn lemma_prepend_assoc(a: Seq<char>, b: Seq<char>, o: TemplateOutcome)
    ensures
        prepend(a, prepend(b, o)) == prepend(a + b, o),
{
    match o {
        TemplateOutcome::Done(r) => {
            assert(a + (b + r) =~= (a + b) + r);
        },
        _ => {},
    }
}

/// Prefixing the empty text changes nothing.
proof fn lemma_prepend_empty(o: TemplateOutcome)
    ensures
        prepend(Seq::<char>::empty(), o) == o,
{
    match o {
        TemplateOutcome::Done(r) => {
            assert(Seq::<char>::empty() + r =~= r);
        },
        _ => {},
    }
}

} // verus!
