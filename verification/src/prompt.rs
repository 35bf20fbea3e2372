//! Prompt templates.

use vstd::prelude::*;

use crate::map::{lookup, StrMap};
use crate::text::{push_str, quote_debug, replace_all, replace_str};
use crate::tool::missing_param_message;

verus! {

/// A reusable prompt template with named parameters.
#[derive(Debug, Clone)]
pub struct PromptDef {
    pub name: String,
    pub description: String,
    pub template: String,
    pub params: Vec<PromptParam>,
}

/// A named parameter of a prompt template.
#[derive(Debug, Clone)]
pub struct PromptParam {
    pub name: String,
    pub description: String,
    pub required: bool,
}

/// The text a parameter's value replaces in a template: `{{name}}`.
pub open spec fn placeholder(name: Seq<char>) -> Seq<char> {
    "{{"@ + name + "}}"@
}

/// Rendering, one parameter after another: a parameter with an argument has
/// every occurrence of its placeholder replaced by the argument; a required
/// parameter without one stops rendering with an error; an optional one
/// without one leaves its placeholder in place.
pub open spec fn render_steps(
    params: Seq<PromptParam>,
    args: Seq<(String, String)>,
    text: Seq<char>,
) -> Result<Seq<char>, Seq<char>>
    decreases params.len(),
{
    if params.len() == 0 {
        Ok(text)
    } else {
        let p = params[0];
        match lookup(args, p.name@) {
            Some(v) => render_steps(
                params.drop_first(),
                args,
                replace_all(text, placeholder(p.name@), v@),
            ),
            None => if p.required {
                Err(missing_param_message(p.name@))
            } else {
                render_steps(params.drop_first(), args, text)
            },
        }
    }
}

/// A `Result` with both sides taken by view.
pub open spec fn text_result(r: Result<String, String>) -> Result<Seq<char>, Seq<char>> {
    match r {
        Ok(s) => Ok(s@),
        Err(e) => Err(e@),
    }
}

impl PromptDef {
    /// A prompt with the given name and template, no description and no
    /// parameters.
    pub fn new(name: &str, template: &str) -> (p: Self)
        ensures
            p.name@ == name@,
            p.description@ == Seq::<char>::empty(),
            p.template@ == template@,
            p.params@.len() == 0,
    {
        PromptDef {
            name: name.to_owned(),
            description: String::new(),
            template: template.to_owned(),
            params: Vec::new(),
        }
    }

    /// Sets the description.
    pub fn description(self, d: &str) -> (p: Self)
        ensures
            p.description@ == d@,
            p.name == self.name,
            p.template == self.template,
            p.params == self.params,
    {
        let mut p = self;
        p.description = d.to_owned();
        p
    }

    /// Adds a parameter after the existing ones.
    pub fn param(self, name: &str, desc: &str, required: bool) -> (p: Self)
        ensures
            p.params@.len() == self.params@.len() + 1,
            p.params@.drop_last() == self.params@,
            p.params@.last().name@ == name@,
            p.params@.last().description@ == desc@,
            p.params@.last().required == required,
            p.name == self.name,
            p.description == self.description,
            p.template == self.template,
    {
        let mut p = self;
        p.params.push(PromptParam { name: name.to_owned(), description: desc.to_owned(), required });
        assert(p.params@.drop_last() =~= self.params@);
        p
    }

    /// Renders the template with the given arguments.
    pub fn render(&self, args: &StrMap<String>) -> (r: Result<String, String>)
        ensures
            text_result(r) == render_steps(self.params@, args@, self.template@),
    {
        let mut output = self.template.clone();
        let mut i: usize = 0;
        assert(self.params@.skip(0) =~= self.params@);
        while i < self.params.len()
            invariant
                0 <= i <= self.params.len(),
                render_steps(self.params@, args@, self.template@) == render_steps(
                    self.params@.skip(i as int),
                    args@,
                    output@,
                ),
            decreases self.params.len() - i,
        {
            let p = &self.params[i];
            assert(self.params@.skip(i as int)[0] == self.params@[i as int]);
            assert(self.params@.skip(i as int).drop_first() =~= self.params@.skip(i + 1));
            let mut ph = String::new();
            push_str(&mut ph, "{{");
            push_str(&mut ph, p.name.as_str());
            push_str(&mut ph, "}}");
            assert(ph@ =~= placeholder(p.name@));
            proof {
                reveal_strlit("{{");
            }
            assert(ph@.len() > 0);
            match args.get(p.name.as_str()) {
                Some(value) => {
                    output = replace_str(output.as_str(), ph.as_str(), value.as_str());
                },
                None => {
                    if p.required {
                        let mut msg = String::new();
                        push_str(&mut msg, "missing required parameter: ");
                        let q = quote_debug(p.name.as_str());
                        push_str(&mut msg, q.as_str());
                        assert(msg@ =~= missing_param_message(p.name@));
                        return Err(msg);
                    }
                },
            }
            i += 1;
        }
        Ok(output)
    }
}

} // verus!

verus! {

/// A required parameter with no argument.
pub open spec fn unfilled(p: PromptParam, args: Seq<(String, String)>) -> bool {
    p.required && lookup(args, p.name@) is None
}

/// Rendering fails exactly when some required parameter has no argument,
/// and then with the message naming the first such parameter.
pub proof fn law_render_fails_iff_required_missing(
    params: Seq<PromptParam>,
    args: Seq<(String, String)>,
    text: Seq<char>,
)
    ensures
        render_steps(params, args, text) is Err <==> exists|i: int|
            0 <= i < params.len() && #[trigger] unfilled(params[i], args),
        render_steps(params, args, text) matches Err(e) ==> exists|i: int|
            {
                &&& 0 <= i < params.len()
                &&& #[trigger] unfilled(params[i], args)
                &&& forall|j: int| 0 <= j < i ==> !unfilled(params[j], args)
                &&& e == missing_param_message(params[i].name@)
            },
    decreases params.len(),
{
    if params.len() > 0 {
        let p = params[0];
        let rest = params.drop_first();
        let next = match lookup(args, p.name@) {
            Some(v) => replace_all(text, placeholder(p.name@), v@),
            None => text,
        };
        law_render_fails_iff_required_missing(rest, args, next);
        if exists|i: int| 0 <= i < rest.len() && #[trigger] unfilled(rest[i], args) {
            let i = choose|i: int| 0 <= i < rest.len() && #[trigger] unfilled(rest[i], args);
            assert(params[i + 1] == rest[i]);
        }
        if exists|i: int| 0 <= i < params.len() && #[trigger] unfilled(params[i], args) {
            let i = choose|i: int| 0 <= i < params.len() && #[trigger] unfilled(params[i], args);
            if i > 0 {
                assert(rest[i - 1] == params[i]);
            }
        }
        if !unfilled(p, args) {
            if let Err(e) = render_steps(rest, args, next) {
                let i = choose|i: int|
                    {
                        &&& 0 <= i < rest.len()
                        &&& #[trigger] unfilled(rest[i], args)
                        &&& forall|j: int| 0 <= j < i ==> !unfilled(rest[j], args)
                        &&& e == missing_param_message(rest[i].name@)
                    };
                assert(unfilled(params[i + 1], args));
                assert forall|j: int| 0 <= j < i + 1 implies !unfilled(params[j], args) by {
                    if j > 0 {
                        assert(params[j] == rest[j - 1]);
                    }
                }
            }
        } else {
            assert(unfilled(params[0], args));
        }
    }
}

} // verus!
