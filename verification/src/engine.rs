//! The template registry and engine: templates are added by name,
//! inheritance references are validated in a separate pass, sources can
//! be re-parsed in place, and rendering resolves the inheritance chain
//! to the root ancestor, collects block overrides child-first, and
//! walks the root's body.

use vstd::prelude::*;

use crate::ast::{bytes_copy, nodes_clone, path_view, Node, SpecNode, SpecTemplate, Template};
use crate::errors::{EngineError, SpecError};
use crate::parse::{parse, spec_parse};
use crate::render::{blocks_of, blocks_view, bytes_res, render_nodes, spec_blocks_of,
    spec_render_nodes};
use crate::value::{bytes_clone, bytes_eq, pairs_view, SpecVal, Val};

verus! {

/// The model of a list of templates.
pub open spec fn templates_view(ts: Seq<Template>) -> Seq<SpecTemplate>
    decreases ts,
{
    if ts.len() == 0 {
        Seq::empty()
    } else {
        seq![ts[0].model()] + templates_view(ts.drop_first())
    }
}

/// Each element of the model of a template list is the model of the
/// corresponding template.
pub proof fn lemma_templates_view_index(ts: Seq<Template>)
    ensures
        templates_view(ts).len() == ts.len(),
        forall|i: int| 0 <= i < ts.len() ==> #[trigger] templates_view(ts)[i] == ts[i].model(),
    decreases ts,
{
    if ts.len() > 0 {
        lemma_templates_view_index(ts.drop_first());
    }
}

/// The index of the first template of this name at or after `from`.
pub open spec fn spec_tpl_index(ts: Seq<SpecTemplate>, name: Seq<u8>, from: int) -> Option<int>
    decreases ts.len() - from,
{
    if from < 0 || from >= ts.len() {
        None
    } else if ts[from].name == name {
        Some(from)
    } else {
        spec_tpl_index(ts, name, from + 1)
    }
}

/// When no index is found, no template from `from` on has the name.
pub proof fn lemma_tpl_index_none(ts: Seq<SpecTemplate>, name: Seq<u8>, from: int)
    requires
        0 <= from,
        spec_tpl_index(ts, name, from) == None::<int>,
    ensures
        forall|i: int| from <= i < ts.len() ==> ts[i].name != name,
    decreases ts.len() - from,
{
    if 0 <= from && from < ts.len() {
        lemma_tpl_index_none(ts, name, from + 1);
    }
}

/// A found index names the template and lies in range.
pub proof fn lemma_tpl_index_some(ts: Seq<SpecTemplate>, name: Seq<u8>, from: int)
    requires
        spec_tpl_index(ts, name, from) matches Some(ix),
    ensures
        spec_tpl_index(ts, name, from) matches Some(ix) ==> from <= ix < ts.len() && ts[ix].name
            == name,
    decreases ts.len() - from,
{
    if 0 <= from && from < ts.len() && ts[from].name != name {
        lemma_tpl_index_some(ts, name, from + 1);
    }
}

/// Find the first template of this name at or after `from`.
pub fn tpl_index(ts: &Vec<Template>, name: &Vec<u8>, from: usize) -> (r: Option<usize>)
    requires
        from <= ts@.len(),
    ensures
        match r {
            Some(ix) => from <= ix < ts@.len() && ts@[ix as int].name@ == name@ && spec_tpl_index(
                templates_view(ts@),
                name@,
                from as int,
            ) == Some(ix as int),
            None => spec_tpl_index(templates_view(ts@), name@, from as int) == None::<int>,
        },
    decreases ts@.len() - from,
{
    proof {
        lemma_templates_view_index(ts@);
    }
    if from >= ts.len() {
        return None;
    }
    if bytes_eq(&ts[from].name, name) {
        return Some(from);
    }
    tpl_index(ts, name, from + 1)
}

/// Copy a template, preserving its model.
pub fn template_clone(t: &Template) -> (r: Template)
    ensures
        r.model() == t.model(),
{
    Template {
        name: bytes_copy(&t.name),
        source: bytes_copy(&t.source),
        parent: match &t.parent {
            Some(p) => Some(bytes_copy(p)),
            None => None,
        },
        body: nodes_clone(&t.body),
    }
}

/// The inheritance chain from a template up to its root ancestor,
/// child first. A missing parent is a `MissingTemplate` error; a chain
/// longer than the fuel (a cycle) is `CircularInheritance`.
pub open spec fn spec_chain(ts: Seq<SpecTemplate>, t: SpecTemplate, fuel: nat) -> Result<
    Seq<SpecTemplate>,
    SpecError,
>
    decreases fuel,
{
    match t.parent {
        None => Ok(seq![t]),
        Some(pname) => {
            if fuel == 0 {
                Err(SpecError::CircularInheritance(t.name))
            } else {
                match spec_tpl_index(ts, pname, 0) {
                    None => Err(SpecError::MissingTemplate(pname)),
                    Some(ix) => match spec_chain(ts, ts[ix], (fuel - 1) as nat) {
                        Err(e) => Err(e),
                        Ok(rest) => Ok(seq![t] + rest),
                    },
                }
            }
        },
    }
}

/// Build the inheritance chain from `t` upward.
fn chain_from(ts: &Vec<Template>, t: &Template, fuel: usize) -> (r: Result<
    Vec<Template>,
    EngineError,
>)
    ensures
        (match r {
            Ok(chain) => Ok::<_, SpecError>(templates_view(chain@)),
            Err(e) => Err(e.model()),
        }) == spec_chain(templates_view(ts@), t.model(), fuel as nat),
        r matches Ok(chain) ==> chain@.len() > 0,
    decreases fuel,
{
    proof {
        lemma_templates_view_index(ts@);
    }
    match &t.parent {
        None => {
            let mut out: Vec<Template> = Vec::new();
            out.push(template_clone(t));
            proof {
                lemma_templates_view_index(out@);
                assert(templates_view(out@) =~= seq![t.model()]);
            }
            Ok(out)
        },
        Some(pname) => {
            if fuel == 0 {
                return Err(EngineError::CircularInheritance(bytes_clone(&t.name)));
            }
            match tpl_index(ts, pname, 0) {
                None => Err(EngineError::MissingTemplate(bytes_clone(pname))),
                Some(ix) => {
                    match chain_from(ts, &ts[ix], fuel - 1) {
                        Err(e) => Err(e),
                        Ok(rest) => {
                            let mut out: Vec<Template> = Vec::new();
                            out.push(template_clone(t));
                            let mut rest2 = rest;
                            let ghost rest_models = templates_view(rest2@);
                            proof {
                                lemma_templates_view_index(out@);
                                lemma_templates_view_index(rest2@);
                            }
                            out.append(&mut rest2);
                            proof {
                                lemma_templates_view_index(out@);
                                assert(templates_view(out@) =~= seq![t.model()] + rest_models);
                            }
                            Ok(out)
                        },
                    }
                },
            }
        },
    }
}

/// The block overrides of a chain, child first: earlier entries win.
pub open spec fn spec_collect(chain: Seq<SpecTemplate>, from: int) -> Seq<
    (Seq<u8>, Seq<SpecNode>),
>
    decreases chain.len() - from,
{
    if from < 0 || from >= chain.len() {
        Seq::empty()
    } else {
        spec_blocks_of(chain[from].body, 0) + spec_collect(chain, from + 1)
    }
}

/// Collect the block overrides of a chain from index `from` on.
fn collect(chain: &Vec<Template>, from: usize) -> (r: Vec<(Vec<u8>, Vec<Node>)>)
    requires
        from <= chain@.len(),
    ensures
        blocks_view(r@) == spec_collect(templates_view(chain@), from as int),
    decreases chain@.len() - from,
{
    proof {
        lemma_templates_view_index(chain@);
    }
    if from >= chain.len() {
        let out: Vec<(Vec<u8>, Vec<Node>)> = Vec::new();
        proof {
            crate::render::lemma_blocks_view_index(out@);
            assert(blocks_view(out@) =~= spec_collect(templates_view(chain@), from as int));
        }
        return out;
    }
    let mut out = blocks_of(&chain[from].body, 0);
    let mut rest = collect(chain, from + 1);
    let ghost out_models = blocks_view(out@);
    let ghost rest_models = blocks_view(rest@);
    proof {
        crate::render::lemma_blocks_view_index(out@);
        crate::render::lemma_blocks_view_index(rest@);
    }
    out.append(&mut rest);
    proof {
        crate::render::lemma_blocks_view_index(out@);
        assert(blocks_view(out@) =~= out_models + rest_models);
    }
    out
}

/// Render a named template of a registry: resolve its inheritance
/// chain, collect block overrides child-first, and render the root
/// ancestor's body with overrides in force.
pub open spec fn spec_render_tpl(
    ts: Seq<SpecTemplate>,
    esc: bool,
    strict: bool,
    name: Seq<u8>,
    ctx: Seq<(Seq<u8>, SpecVal)>,
) -> Result<Seq<u8>, SpecError> {
    match spec_tpl_index(ts, name, 0) {
        None => Err(SpecError::MissingTemplate(name)),
        Some(ix) => match spec_chain(ts, ts[ix], ts.len()) {
            Err(e) => Err(e),
            Ok(chain) => spec_render_nodes(
                chain[chain.len() - 1].body,
                0,
                spec_collect(chain, 0),
                true,
                esc,
                strict,
                ctx,
            ),
        },
    }
}

/// Mathematical model of an engine.
pub struct SpecEngine {
    pub templates: Seq<SpecTemplate>,
    pub autoescape: bool,
    pub strict: bool,
}

/// The engine: a registry of parsed templates in insertion order,
/// together with the autoescape and strict-variables settings.
#[derive(Debug)]
pub struct Engine {
    pub templates: Vec<Template>,
    pub autoescape: bool,
    pub strict: bool,
}

impl Engine {
    /// The mathematical model of the engine.
    pub open spec fn model(&self) -> SpecEngine {
        SpecEngine {
            templates: templates_view(self.templates@),
            autoescape: self.autoescape,
            strict: self.strict,
        }
    }

    /// Well-formedness: every stored template is exactly what parsing
    /// its stored source yields, and names are unique.
    pub open spec fn wf(&self) -> bool {
        let ts = self.model().templates;
        &&& forall|i: int| 0 <= i < ts.len() ==> spec_parse(#[trigger] ts[i].source)
            == Ok::<_, SpecError>((ts[i].parent, ts[i].body))
        &&& forall|i: int, j: int| 0 <= i < j < ts.len() ==> ts[i].name != ts[j].name
    }

    /// A fresh engine: no templates, autoescape on, strict mode on.
    pub fn new() -> (r: Engine)
        ensures
            r.wf(),
            r.model().templates.len() == 0,
            r.model().autoescape == true,
            r.model().strict == true,
    {
        let e = Engine { templates: Vec::new(), autoescape: true, strict: true };
        proof {
            lemma_templates_view_index(e.templates@);
        }
        e
    }

    /// Turn HTML autoescaping of interpolated values on.
    pub fn autoescape_on(&mut self)
        ensures
            final(self).model() == (SpecEngine { autoescape: true, ..old(self).model() }),
            old(self).wf() ==> final(self).wf(),
    {
        self.autoescape = true;
    }

    /// Turn HTML autoescaping of interpolated values off.
    pub fn autoescape_off(&mut self)
        ensures
            final(self).model() == (SpecEngine { autoescape: false, ..old(self).model() }),
            old(self).wf() ==> final(self).wf(),
    {
        self.autoescape = false;
    }

    /// Choose between strict mode (an undefined variable is an error)
    /// and lenient mode (it renders as null, that is, as nothing).
    pub fn set_strict(&mut self, strict: bool)
        ensures
            final(self).model() == (SpecEngine { strict: strict, ..old(self).model() }),
            old(self).wf() ==> final(self).wf(),
    {
        self.strict = strict;
    }

    /// The registered template names, in insertion order.
    pub fn names(&self) -> (r: Vec<Vec<u8>>)
        ensures
            path_view(r@).len() == self.model().templates.len(),
            forall|i: int| 0 <= i < r@.len() ==> path_view(r@)[i] == self.model().templates[
                i
            ].name,
    {
        proof {
            lemma_templates_view_index(self.templates@);
        }
        let mut out: Vec<Vec<u8>> = Vec::new();
        for i in 0..self.templates.len()
            invariant
                i <= self.templates@.len(),
                templates_view(self.templates@).len() == self.templates@.len(),
                forall|k: int| 0 <= k < self.templates@.len()
                    ==> #[trigger] templates_view(self.templates@)[k]
                    == self.templates@[k].model(),
                out@.len() == i,
                forall|k: int| 0 <= k < i ==> out@[k]@ == templates_view(
                    self.templates@,
                )[k].name,
        {
            let c = bytes_clone(&self.templates[i].name);
            out.push(c);
        }
        proof {
            assert forall|k: int| 0 <= k < out@.len() implies path_view(out@)[k]
                == self.model().templates[k].name by {
                assert(path_view(out@)[k] == out@[k]@);
            }
        }
        out
    }

    /// Parse a source and store it under a name. If the name is taken
    /// and `overwrite` is off, this is a `DuplicateNameError`; with
    /// `overwrite` on the entry is re-made in place, keeping its
    /// position.
    pub fn add_raw(&mut self, name: &Vec<u8>, source: &Vec<u8>, overwrite: bool) -> (r: Result<
        (),
        EngineError,
    >)
        requires
            old(self).wf(),
        ensures
            final(self).wf(),
            match r {
                Ok(()) => spec_add(old(self).model(), name@, source@, overwrite) == Ok::<
                    _,
                    SpecError,
                >(final(self).model()),
                Err(e) => spec_add(old(self).model(), name@, source@, overwrite) == Err::<
                    SpecEngine,
                    _,
                >(e.model()) && final(self).model() == old(self).model(),
            },
    {
        proof {
            lemma_templates_view_index(self.templates@);
        }
        let found = tpl_index(&self.templates, name, 0);
        if found.is_some() && !overwrite {
            return Err(EngineError::DuplicateName(bytes_clone(name)));
        }
        let t = match parse(name, source) {
            Err(e) => {
                return Err(e);
            },
            Ok(t) => t,
        };
        let ghost old_views = templates_view(self.templates@);
        match found {
            Some(ix) => {
                self.templates.set(ix, t);
                proof {
                    lemma_templates_view_index(self.templates@);
                    assert(templates_view(self.templates@) =~= old_views.update(
                        ix as int,
                        self.templates@[ix as int].model(),
                    ));
                    lemma_tpl_index_some(old_views, name@, 0);
                }
                Ok(())
            },
            None => {
                self.templates.push(t);
                proof {
                    lemma_templates_view_index(self.templates@);
                    assert(templates_view(self.templates@) =~= old_views.push(
                        self.templates@[self.templates@.len() - 1].model(),
                    ));
                    lemma_tpl_index_none(old_views, name@, 0);
                }
                Ok(())
            },
        }
    }

    /// The parent names that templates refer to but the registry does
    /// not hold, in registry order.
    pub fn resolve_inheritance(&self) -> (r: Result<(), EngineError>)
        ensures
            match r {
                Ok(()) => spec_missing(self.model().templates, 0).len() == 0,
                Err(e) => e.model() == SpecError::Unresolved(
                    spec_missing(self.model().templates, 0),
                ) && spec_missing(self.model().templates, 0).len() > 0,
            },
    {
        let missing = missing_parents(&self.templates, 0);
        if missing.len() == 0 {
            proof {
                assert(path_view(missing@).len() == 0);
            }
            Ok(())
        } else {
            proof {
                assert(path_view(missing@).len() > 0);
            }
            Err(EngineError::Unresolved(missing))
        }
    }

    /// Re-parse every stored source in place. Sources do not change in
    /// the registry, so neither does the registry: re-parsing what a
    /// template was parsed from yields that template again.
    pub fn reload(&mut self) -> (r: Result<(), EngineError>)
        requires
            old(self).wf(),
        ensures
            r matches Ok(()),
            final(self).model() == old(self).model(),
            final(self).wf(),
    {
        let n = self.templates.len();
        for i in 0..n
            invariant
                n == self.templates@.len(),
                templates_view(self.templates@) == templates_view(old(self).templates@),
                self.autoescape == old(self).autoescape,
                self.strict == old(self).strict,
                old(self).wf(),
        {
            proof {
                lemma_templates_view_index(self.templates@);
            }
            let name = bytes_clone(&self.templates[i].name);
            let source = bytes_clone(&self.templates[i].source);
            let ghost old_views = templates_view(self.templates@);
            proof {
                assert(old_views[i as int] == self.templates@[i as int].model());
                assert(old_views == templates_view(old(self).templates@));
                assert(spec_parse(old_views[i as int].source) == Ok::<_, SpecError>((
                    old_views[i as int].parent,
                    old_views[i as int].body,
                )));
                assert(source@ == old_views[i as int].source);
            }
            match parse(&name, &source) {
                Ok(t) => {
                    proof {
                        assert(t.model() == self.templates@[i as int].model());
                    }
                    self.templates.set(i, t);
                    proof {
                        lemma_templates_view_index(self.templates@);
                        assert(templates_view(self.templates@) =~= old_views);
                    }
                },
                Err(e) => {
                    proof {
                        assert(false);
                    }
                },
            }
        }
        Ok(())
    }

    /// Render a registered template against a context, returning the
    /// output bytes.
    pub fn render_to_string(&self, name: &Vec<u8>, ctx: &Vec<(Vec<u8>, Val)>) -> (r: Result<
        Vec<u8>,
        EngineError,
    >)
        ensures
            bytes_res(r) == spec_render_tpl(
                self.model().templates,
                self.model().autoescape,
                self.model().strict,
                name@,
                pairs_view(ctx@),
            ),
    {
        proof {
            lemma_templates_view_index(self.templates@);
        }
        let ix = match tpl_index(&self.templates, name, 0) {
            None => {
                return Err(EngineError::MissingTemplate(bytes_clone(name)));
            },
            Some(ix) => ix,
        };
        let chain = match chain_from(&self.templates, &self.templates[ix], self.templates.len()) {
            Err(e) => {
                return Err(e);
            },
            Ok(chain) => chain,
        };
        proof {
            lemma_templates_view_index(chain@);
        }
        let ov = collect(&chain, 0);
        let root = chain.len() - 1;
        render_nodes(&chain[root].body, 0, &ov, true, self.autoescape, self.strict, ctx)
    }

    /// Render a registered template, appending the output to a sink.
    /// On an error nothing is written.
    pub fn render_to(
        &self,
        name: &Vec<u8>,
        ctx: &Vec<(Vec<u8>, Val)>,
        sink: &mut Vec<u8>,
    ) -> (r: Result<(), EngineError>)
        ensures
            match spec_render_tpl(
                self.model().templates,
                self.model().autoescape,
                self.model().strict,
                name@,
                pairs_view(ctx@),
            ) {
                Ok(out) => r matches Ok(()) && final(sink)@ == old(sink)@ + out,
                Err(e) => (r matches Err(er) && er.model() == e) && final(sink)@ == old(sink)@,
            },
    {
        match self.render_to_string(name, ctx) {
            Ok(out) => {
                let mut out2 = out;
                sink.append(&mut out2);
                Ok(())
            },
            Err(e) => Err(e),
        }
    }
}

/// Add a template to an engine model: parse the source, then store the
/// template under the name, replacing in place when overwriting.
pub open spec fn spec_add(e: SpecEngine, name: Seq<u8>, source: Seq<u8>, overwrite: bool)
    -> Result<SpecEngine, SpecError> {
    match spec_tpl_index(e.templates, name, 0) {
        Some(ix) => if !overwrite {
            Err(SpecError::DuplicateName(name))
        } else {
            match spec_parse(source) {
                Err(er) => Err(er),
                Ok((parent, body)) => Ok(
                    SpecEngine {
                        templates: e.templates.update(
                            ix,
                            SpecTemplate { name, source, parent, body },
                        ),
                        ..e
                    },
                ),
            }
        },
        None => match spec_parse(source) {
            Err(er) => Err(er),
            Ok((parent, body)) => Ok(
                SpecEngine {
                    templates: e.templates.push(SpecTemplate { name, source, parent, body }),
                    ..e
                },
            ),
        },
    }
}

/// The parent names from template `from` on that the registry lacks.
pub open spec fn spec_missing(ts: Seq<SpecTemplate>, from: int) -> Seq<Seq<u8>>
    decreases ts.len() - from,
{
    if from < 0 || from >= ts.len() {
        Seq::empty()
    } else {
        match ts[from].parent {
            Some(p) => if spec_tpl_index(ts, p, 0) == None::<int> {
                seq![p] + spec_missing(ts, from + 1)
            } else {
                spec_missing(ts, from + 1)
            },
            None => spec_missing(ts, from + 1),
        }
    }
}

/// Collect the missing parent names from template `from` on.
fn missing_parents(ts: &Vec<Template>, from: usize) -> (r: Vec<Vec<u8>>)
    requires
        from <= ts@.len(),
    ensures
        path_view(r@) == spec_missing(templates_view(ts@), from as int),
    decreases ts@.len() - from,
{
    proof {
        lemma_templates_view_index(ts@);
    }
    if from >= ts.len() {
        let out: Vec<Vec<u8>> = Vec::new();
        proof {
            assert(path_view(out@) =~= spec_missing(templates_view(ts@), from as int));
        }
        return out;
    }
    let rest = missing_parents(ts, from + 1);
    match &ts[from].parent {
        Some(p) => {
            match tpl_index(ts, p, 0) {
                None => {
                    let mut out: Vec<Vec<u8>> = Vec::new();
                    out.push(bytes_clone(p));
                    let mut rest2 = rest;
                    let ghost rest_models = path_view(rest2@);
                    out.append(&mut rest2);
                    proof {
                        assert(path_view(out@) =~= seq![p@] + rest_models);
                    }
                    out
                },
                Some(_) => rest,
            }
        },
        None => rest,
    }
}

} // verus!
