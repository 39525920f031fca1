use crate::json::{json_clone, json_kind_name, json_text, value_to_string, JsonValue, JsonView};
use crate::prompt::error::{PromptError, PromptErrorView};
use crate::strmap::StrMap;
use crate::text::{clone_opt, opt_view, owned, replace_all_seq, seq_contains};
use vstd::prelude::*;

verus! {

/// The declared type of a template variable.
#[derive(Debug, Clone, Copy, PartialEq, Eq, Structural)]
pub enum VariableType {
    String,
    Number,
    Boolean,
    List,
    Object,
}

/// The lower-case name of a variable type.
pub open spec fn variable_type_name(t: VariableType) -> Seq<char> {
    match t {
        VariableType::String => "string"@,
        VariableType::Number => "number"@,
        VariableType::Boolean => "boolean"@,
        VariableType::List => "list"@,
        VariableType::Object => "object"@,
    }
}

impl VariableType {
    pub fn as_str(&self) -> (s: &'static str)
        ensures
            s@ == variable_type_name(*self),
    {
        match self {
            VariableType::String => "string",
            VariableType::Number => "number",
            VariableType::Boolean => "boolean",
            VariableType::List => "list",
            VariableType::Object => "object",
        }
    }
}

/// Whether a value has the kind a variable type asks for.
pub open spec fn type_matches(t: VariableType, v: JsonView) -> bool {
    match t {
        VariableType::String => v is String,
        VariableType::Number => v is Number,
        VariableType::Boolean => v is Bool,
        VariableType::List => v is Array,
        VariableType::Object => v is Object,
    }
}

/// A declared template variable.
#[derive(Debug)]
pub struct TemplateVariable {
    pub name: String,
    pub var_type: VariableType,
    pub required: bool,
    pub default: Option<JsonValue>,
    pub description: Option<String>,
}

/// A template variable as plain values.
pub struct VarView {
    pub name: Seq<char>,
    pub var_type: VariableType,
    pub required: bool,
    pub default: Option<JsonView>,
    pub description: Option<Seq<char>>,
}

pub open spec fn opt_json_view(o: Option<JsonValue>) -> Option<JsonView> {
    match o {
        Some(v) => Some(v@),
        None => None,
    }
}

impl View for TemplateVariable {
    type V = VarView;

    open spec fn view(&self) -> VarView {
        VarView {
            name: self.name@,
            var_type: self.var_type,
            required: self.required,
            default: opt_json_view(self.default),
            description: opt_view(self.description),
        }
    }
}

/// The error message for a value of the wrong kind.
pub open spec fn invalid_type_text(var: VarView, v: JsonView) -> Seq<char> {
    "variable '"@ + var.name + "' expected type "@ + variable_type_name(var.var_type) + ", got "@
        + json_kind_name(v)
}

impl TemplateVariable {
    /// A required variable without default or description.
    pub fn new(name: &str, var_type: VariableType) -> (v: Self)
        ensures
            v@ == (VarView {
                name: name@,
                var_type,
                required: true,
                default: None,
                description: None,
            }),
    {
        TemplateVariable { name: owned(name), var_type, required: true, default: None, description: None }
    }

    /// Gives the variable a default value, which makes it optional.
    pub fn with_default(self, default: JsonValue) -> (v: Self)
        ensures
            v@ == (VarView { default: Some(default@), required: false, ..self@ }),
    {
        TemplateVariable { default: Some(default), required: false, ..self }
    }

    pub fn with_description(self, desc: &str) -> (v: Self)
        ensures
            v@ == (VarView { description: Some(desc@), ..self@ }),
    {
        TemplateVariable { description: Some(owned(desc)), ..self }
    }

    /// Makes the variable optional.
    pub fn optional(self) -> (v: Self)
        ensures
            v@ == (VarView { required: false, ..self@ }),
    {
        TemplateVariable { required: false, ..self }
    }

    /// Checks that `value` has the kind the variable's type asks for.
    pub fn validate(&self, value: &JsonValue) -> (r: Result<(), PromptError>)
        ensures
            type_matches(self.var_type, value@) ==> r is Ok,
            !type_matches(self.var_type, value@) ==> (r matches Err(e) && e@
                == PromptErrorView::InvalidType(invalid_type_text(self@, value@))),
    {
        let ok = match (self.var_type, value) {
            (VariableType::String, JsonValue::String(_)) => true,
            (VariableType::Number, JsonValue::Number(_)) => true,
            (VariableType::Boolean, JsonValue::Bool(_)) => true,
            (VariableType::List, JsonValue::Array(_)) => true,
            (VariableType::Object, JsonValue::Object(_)) => true,
            _ => false,
        };
        if !ok {
            let mut m = owned("variable '");
            m.append(self.name.as_str());
            m.append("' expected type ");
            m.append(self.var_type.as_str());
            m.append(", got ");
            m.append(crate::json::value_type_name(value));
            return Err(PromptError::InvalidType(m));
        }
        Ok(())
    }

    /// A copy of the variable.
    pub fn duplicate(&self) -> (v: Self)
        ensures
            v@ == self@,
    {
        let default = match &self.default {
            Some(d) => Some(json_clone(d)),
            None => None,
        };
        TemplateVariable {
            name: self.name.clone(),
            var_type: self.var_type,
            required: self.required,
            default,
            description: clone_opt(&self.description),
        }
    }
}

/// A prompt template: text with `{{variable}}` placeholders and
/// `{%section%}` slots.
#[derive(Debug)]
pub struct PromptTemplate {
    pub name: String,
    pub version: String,
    pub description: Option<String>,
    pub template: String,
    pub variables: Vec<TemplateVariable>,
    pub sections: Vec<String>,
}

/// A prompt template as plain values.
pub struct TemplateView {
    pub name: Seq<char>,
    pub version: Seq<char>,
    pub description: Option<Seq<char>>,
    pub template: Seq<char>,
    pub variables: Seq<VarView>,
    pub sections: Seq<Seq<char>>,
}

impl View for PromptTemplate {
    type V = TemplateView;

    open spec fn view(&self) -> TemplateView {
        TemplateView {
            name: self.name@,
            version: self.version@,
            description: opt_view(self.description),
            template: self.template@,
            variables: self.variables@.map_values(|v: TemplateVariable| v@),
            sections: self.sections@.map_values(|s: String| s@),
        }
    }
}

/// The placeholder of a variable: `{{name}}`.
pub open spec fn placeholder(name: Seq<char>) -> Seq<char> {
    "{{"@ + name + "}}"@
}

/// The slot of a section: `{%name%}`.
pub open spec fn section_slot(name: Seq<char>) -> Seq<char> {
    "{%"@ + name + "%}"@
}

/// What a variable fails with for the given values, if anything: a value
/// of the wrong kind, or no value for a required variable without default.
pub open spec fn variable_error(var: VarView, values: Map<Seq<char>, JsonView>) -> Option<
    PromptErrorView,
> {
    if values.contains_key(var.name) {
        if type_matches(var.var_type, values[var.name]) {
            None
        } else {
            Some(PromptErrorView::InvalidType(invalid_type_text(var, values[var.name])))
        }
    } else if var.required && var.default is None {
        Some(PromptErrorView::MissingVariable(var.name))
    } else {
        None
    }
}

/// The first error among the first `n` variables, in declaration order.
pub open spec fn first_error(
    vars: Seq<VarView>,
    values: Map<Seq<char>, JsonView>,
    n: nat,
) -> Option<PromptErrorView>
    decreases n,
{
    if n == 0 || n > vars.len() {
        None
    } else {
        match first_error(vars, values, (n - 1) as nat) {
            Some(e) => Some(e),
            None => variable_error(vars[n - 1], values),
        }
    }
}

/// The value a variable renders: the given one, else its default, else
/// null.
pub open spec fn variable_value(var: VarView, values: Map<Seq<char>, JsonView>) -> JsonView {
    if values.contains_key(var.name) {
        values[var.name]
    } else {
        match var.default {
            Some(d) => d,
            None => JsonView::Null,
        }
    }
}

/// The template text after substituting the first `n` variables in
/// declaration order.
pub open spec fn substituted(
    text: Seq<char>,
    vars: Seq<VarView>,
    values: Map<Seq<char>, JsonView>,
    n: nat,
) -> Seq<char>
    decreases n,
{
    if n == 0 || n > vars.len() {
        text
    } else {
        replace_all_seq(
            substituted(text, vars, values, (n - 1) as nat),
            placeholder(vars[n - 1].name),
            json_text(variable_value(vars[n - 1], values)),
        )
    }
}

/// The outcome of rendering a template with the given values.
pub open spec fn rendered(t: TemplateView, values: Map<Seq<char>, JsonView>) -> Result<
    Seq<char>,
    PromptErrorView,
> {
    match first_error(t.variables, values, t.variables.len()) {
        Some(e) => Err(e),
        None => Ok(substituted(t.template, t.variables, values, t.variables.len())),
    }
}

/// The values of a map of JSON values.
pub open spec fn values_view(values: Map<Seq<char>, JsonValue>) -> Map<Seq<char>, JsonView> {
    values.map_values(|v: JsonValue| v@)
}

/// The defaults of the first `n` variables, a later variable's default
/// replacing an earlier one of the same name.
pub open spec fn defaults_of(vars: Seq<VarView>, n: nat) -> Map<Seq<char>, JsonView>
    decreases n,
{
    if n == 0 || n > vars.len() {
        Map::empty()
    } else {
        match vars[n - 1].default {
            Some(d) => defaults_of(vars, (n - 1) as nat).insert(vars[n - 1].name, d),
            None => defaults_of(vars, (n - 1) as nat),
        }
    }
}

/// Whether some variable in `vars` has the name `name`.
pub open spec fn has_variable_named(vars: Seq<VarView>, name: Seq<char>) -> bool {
    exists|j: int| 0 <= j < vars.len() && #[trigger] vars[j].name == name
}

/// `base` followed by the variables of `extra` whose name is not yet
/// present, in order.
pub open spec fn merge_variables(base: Seq<VarView>, extra: Seq<VarView>) -> Seq<VarView>
    decreases extra.len(),
{
    if extra.len() == 0 {
        base
    } else {
        let m = merge_variables(base, extra.drop_last());
        if has_variable_named(m, extra.last().name) {
            m
        } else {
            m.push(extra.last())
        }
    }
}

/// The outcome of composing `t` with `other` in section `section`.
pub open spec fn composed(t: TemplateView, other: TemplateView, section: Seq<char>) -> Result<
    TemplateView,
    PromptErrorView,
> {
    if !seq_contains(t.template, section_slot(section)) {
        Err(
            PromptErrorView::RenderError(
                "section '"@ + section + "' not found in template '"@ + t.name + "'"@,
            ),
        )
    } else {
        Ok(
            TemplateView {
                name: t.name + "_"@ + other.name,
                version: t.version,
                description: t.description,
                template: replace_all_seq(t.template, section_slot(section), other.template),
                variables: merge_variables(t.variables, other.variables),
                sections: t.sections + other.sections,
            },
        )
    }
}

proof fn lemma_first_error_stable(
    vars: Seq<VarView>,
    values: Map<Seq<char>, JsonView>,
    i: nat,
    n: nat,
)
    requires
        i <= n <= vars.len(),
        first_error(vars, values, i) is Some,
    ensures
        first_error(vars, values, n) == first_error(vars, values, i),
    decreases n - i,
{
    if n > i {
        lemma_first_error_stable(vars, values, i, (n - 1) as nat);
    }
}

fn placeholder_exec(name: &str) -> (p: String)
    ensures
        p@ == placeholder(name@),
{
    let mut p = owned("{{");
    p.append(name);
    p.append("}}");
    p
}

impl PromptTemplate {
    /// A template at version "1.0.0" with no variables or sections.
    pub fn new(name: &str, template: &str) -> (t: Self)
        ensures
            t@ == (TemplateView {
                name: name@,
                version: "1.0.0"@,
                description: None,
                template: template@,
                variables: Seq::empty(),
                sections: Seq::empty(),
            }),
    {
        let t = PromptTemplate {
            name: owned(name),
            version: owned("1.0.0"),
            description: None,
            template: owned(template),
            variables: Vec::new(),
            sections: Vec::new(),
        };
        assert(t@.variables =~= Seq::<VarView>::empty());
        assert(t@.sections =~= Seq::<Seq<char>>::empty());
        t
    }

    pub fn with_version(self, version: &str) -> (t: Self)
        ensures
            t@ == (TemplateView { version: version@, ..self@ }),
    {
        PromptTemplate { version: owned(version), ..self }
    }

    pub fn with_description(self, desc: &str) -> (t: Self)
        ensures
            t@ == (TemplateView { description: Some(desc@), ..self@ }),
    {
        PromptTemplate { description: Some(owned(desc)), ..self }
    }

    /// Declares one more variable, last.
    pub fn with_variable(self, var: TemplateVariable) -> (t: Self)
        ensures
            t@ == (TemplateView { variables: self@.variables.push(var@), ..self@ }),
    {
        let mut t = self;
        let ghost vs = t.variables@;
        t.variables.push(var);
        assert(t.variables@.map_values(|v: TemplateVariable| v@) =~= vs.map_values(
            |v: TemplateVariable| v@,
        ).push(var@));
        t
    }

    /// Declares one more section, last.
    pub fn with_section(self, section: &str) -> (t: Self)
        ensures
            t@ == (TemplateView { sections: self@.sections.push(section@), ..self@ }),
    {
        let mut t = self;
        let ghost ss = t.sections@;
        t.sections.push(owned(section));
        assert(t.sections@.map_values(|s: String| s@) =~= ss.map_values(|s: String| s@).push(
            section@,
        ));
        t
    }

    /// Checks every declared variable against the given values, in
    /// declaration order, and reports the first failure.
    pub fn validate_variables(&self, values: &StrMap<JsonValue>) -> (r: Result<(), PromptError>)
        ensures
            match first_error(self@.variables, values_view(values@), self@.variables.len()) {
                Some(e) => r matches Err(err) && err@ == e,
                None => r is Ok,
            },
    {
        let ghost vars = self@.variables;
        let ghost vals = values_view(values@);
        let mut i: usize = 0;
        while i < self.variables.len()
            invariant
                vars == self@.variables,
                vals == values_view(values@),
                i <= self.variables@.len(),
                first_error(vars, vals, i as nat) is None,
            decreases self.variables@.len() - i,
        {
            let var = &self.variables[i];
            assert(vars[i as int] == var@);
            proof {
                assert(first_error(vars, vals, (i + 1) as nat) == variable_error(vars[i as int], vals));
                if first_error(vars, vals, (i + 1) as nat) is Some {
                    lemma_first_error_stable(vars, vals, (i + 1) as nat, vars.len());
                }
            }
            match values.get(var.name.as_str()) {
                Some(value) => {
                    let r = var.validate(value);
                    if r.is_err() {
                        return r;
                    }
                },
                None => {
                    if var.required && var.default.is_none() {
                        return Err(PromptError::MissingVariable(var.name.clone()));
                    }
                },
            }
            i = i + 1;
        }
        Ok(())
    }

    /// Fills every placeholder `{{name}}` of a declared variable with its
    /// value (given, else default, else empty), after validating the values.
    pub fn render(&self, values: &StrMap<JsonValue>) -> (r: Result<String, PromptError>)
        ensures
            match rendered(self@, values_view(values@)) {
                Ok(text) => r matches Ok(s) && s@ == text,
                Err(e) => r matches Err(err) && err@ == e,
            },
    {
        let v = self.validate_variables(values);
        if let Err(e) = v {
            return Err(e);
        }
        let ghost vars = self@.variables;
        let ghost vals = values_view(values@);
        let mut result = self.template.clone();
        let mut i: usize = 0;
        while i < self.variables.len()
            invariant
                vars == self@.variables,
                vals == values_view(values@),
                i <= self.variables@.len(),
                result@ == substituted(self@.template, vars, vals, i as nat),
            decreases self.variables@.len() - i,
        {
            let var = &self.variables[i];
            assert(vars[i as int] == var@);
            let text = match values.get(var.name.as_str()) {
                Some(value) => value_to_string(value),
                None => match &var.default {
                    Some(d) => value_to_string(d),
                    None => String::new(),
                },
            };
            proof {
                reveal_strlit("{{");
                reveal_strlit("}}");
            }
            let ph = placeholder_exec(var.name.as_str());
            result = crate::text::replace_all(result.as_str(), ph.as_str(), text.as_str());
            i = i + 1;
        }
        Ok(result)
    }

    /// Renders with the variables' defaults as the only values.
    pub fn render_with_defaults(&self) -> (r: Result<String, PromptError>)
        ensures
            match rendered(self@, defaults_of(self@.variables, self@.variables.len())) {
                Ok(text) => r matches Ok(s) && s@ == text,
                Err(e) => r matches Err(err) && err@ == e,
            },
    {
        let ghost vars = self@.variables;
        let mut values: StrMap<JsonValue> = StrMap::new();
        let mut i: usize = 0;
        assert(values_view(values@) =~= defaults_of(vars, 0));
        while i < self.variables.len()
            invariant
                vars == self@.variables,
                i <= self.variables@.len(),
                values_view(values@) == defaults_of(vars, i as nat),
            decreases self.variables@.len() - i,
        {
            let var = &self.variables[i];
            assert(vars[i as int] == var@);
            if let Some(d) = &var.default {
                values.insert(var.name.clone(), json_clone(d));
                assert(values_view(values@) =~= defaults_of(vars, (i + 1) as nat));
            }
            i = i + 1;
        }
        self.render(&values)
    }

    /// The names of the declared variables, in order.
    pub fn variable_names(&self) -> (names: Vec<&str>)
        ensures
            names@.len() == self@.variables.len(),
            forall|i: int| 0 <= i < names@.len() ==> #[trigger] names@[i]@ == self@.variables[i].name,
    {
        let mut names: Vec<&str> = Vec::new();
        let mut i: usize = 0;
        while i < self.variables.len()
            invariant
                i <= self.variables@.len(),
                names@.len() == i,
                forall|j: int| 0 <= j < i ==> #[trigger] names@[j]@ == self@.variables[j].name,
            decreases self.variables@.len() - i,
        {
            names.push(self.variables[i].name.as_str());
            i = i + 1;
        }
        names
    }

    /// The required variables, in declaration order.
    pub fn required_variables(&self) -> (vs: Vec<&TemplateVariable>)
        ensures
            vs@.map_values(|v: &TemplateVariable| v@) == self@.variables.filter(|v: VarView| v.required),
    {
        let r = self.variables_where(true);
        assert((|v: VarView| v.required == true) =~= (|v: VarView| v.required));
        r
    }

    /// The optional variables, in declaration order.
    pub fn optional_variables(&self) -> (vs: Vec<&TemplateVariable>)
        ensures
            vs@.map_values(|v: &TemplateVariable| v@) == self@.variables.filter(|v: VarView| !v.required),
    {
        let r = self.variables_where(false);
        assert((|v: VarView| v.required == false) =~= (|v: VarView| !v.required));
        r
    }

    fn variables_where(&self, required: bool) -> (vs: Vec<&TemplateVariable>)
        ensures
            vs@.map_values(|v: &TemplateVariable| v@) == self@.variables.filter(
                |v: VarView| v.required == required,
            ),
    {
        let ghost vars = self@.variables;
        let ghost pred = |v: VarView| v.required == required;
        let mut vs: Vec<&TemplateVariable> = Vec::new();
        let mut i: usize = 0;
        assert(vars.take(0).filter(pred) =~= Seq::<VarView>::empty());
        while i < self.variables.len()
            invariant
                vars == self@.variables,
                pred == (|v: VarView| v.required == required),
                i <= self.variables@.len(),
                vs@.map_values(|v: &TemplateVariable| v@) == vars.take(i as int).filter(pred),
            decreases self.variables@.len() - i,
        {
            let var = &self.variables[i];
            assert(vars[i as int] == var@);
            let ghost before = vs@;
            proof {
                assert(vars.take(i + 1).drop_last() =~= vars.take(i as int));
                reveal_with_fuel(Seq::<VarView>::filter, 1);
            }
            if var.required == required {
                vs.push(var);
                assert(vs@.map_values(|v: &TemplateVariable| v@) =~= before.map_values(
                    |v: &TemplateVariable| v@,
                ).push(var@));
            }
            i = i + 1;
        }
        assert(vars.take(vars.len() as int) =~= vars);
        vs
    }

    /// A copy of the template.
    pub fn duplicate(&self) -> (t: Self)
        ensures
            t@ == self@,
    {
        let mut vars: Vec<TemplateVariable> = Vec::new();
        let mut i: usize = 0;
        while i < self.variables.len()
            invariant
                i <= self.variables@.len(),
                vars@.len() == i,
                forall|j: int| 0 <= j < i ==> #[trigger] vars@[j]@ == self.variables@[j]@,
            decreases self.variables@.len() - i,
        {
            vars.push(self.variables[i].duplicate());
            i = i + 1;
        }
        let t = PromptTemplate {
            name: self.name.clone(),
            version: self.version.clone(),
            description: clone_opt(&self.description),
            template: self.template.clone(),
            variables: vars,
            sections: self.sections.clone(),
        };
        assert(t@.variables =~= self@.variables);
        assert(t@.sections =~= self@.sections);
        t
    }

    /// Puts `other`'s text into the slot `{%section_name%}` of this
    /// template; the result declares this template's variables and then
    /// those of `other` not yet declared, and both templates' sections.
    pub fn compose(&self, other: &PromptTemplate, section_name: &str) -> (r: Result<
        PromptTemplate,
        PromptError,
    >)
        ensures
            match composed(self@, other@, section_name@) {
                Ok(t) => r matches Ok(c) && c@ == t,
                Err(e) => r matches Err(err) && err@ == e,
            },
    {
        proof {
            reveal_strlit("{%");
            reveal_strlit("%}");
            reveal_strlit("_");
            reveal_strlit("section '");
            reveal_strlit("' not found in template '");
            reveal_strlit("'");
        }
        let mut slot = owned("{%");
        slot.append(section_name);
        slot.append("%}");
        if !crate::text::contains_str(self.template.as_str(), slot.as_str()) {
            let mut m = owned("section '");
            m.append(section_name);
            m.append("' not found in template '");
            m.append(self.name.as_str());
            m.append("'");
            return Err(PromptError::RenderError(m));
        }
        let new_template = crate::text::replace_all(
            self.template.as_str(),
            slot.as_str(),
            other.template.as_str(),
        );
        let mut variables: Vec<TemplateVariable> = Vec::new();
        let mut i: usize = 0;
        while i < self.variables.len()
            invariant
                i <= self.variables@.len(),
                variables@.len() == i,
                forall|j: int| 0 <= j < i ==> #[trigger] variables@[j]@ == self.variables@[j]@,
            decreases self.variables@.len() - i,
        {
            variables.push(self.variables[i].duplicate());
            i = i + 1;
        }
        assert(variables@.map_values(|v: TemplateVariable| v@) =~= self@.variables);
        let ghost extra = other@.variables;
        let mut k: usize = 0;
        assert(extra.take(0) =~= Seq::<VarView>::empty());
        while k < other.variables.len()
            invariant
                extra == other@.variables,
                k <= other.variables@.len(),
                variables@.map_values(|v: TemplateVariable| v@) == merge_variables(
                    self@.variables,
                    extra.take(k as int),
                ),
            decreases other.variables@.len() - k,
        {
            let var = &other.variables[k];
            assert(extra[k as int] == var@);
            assert(extra.take(k + 1).drop_last() =~= extra.take(k as int));
            let ghost cur = variables@.map_values(|v: TemplateVariable| v@);
            let mut present = false;
            let mut j: usize = 0;
            while j < variables.len()
                invariant
                    cur == variables@.map_values(|v: TemplateVariable| v@),
                    j <= variables@.len(),
                    present == (exists|t: int| 0 <= t < j && #[trigger] cur[t].name == var@.name),
                decreases variables@.len() - j,
            {
                assert(cur[j as int].name == variables@[j as int].name@);
                if variables[j].name == var.name {
                    present = true;
                }
                j = j + 1;
            }
            assert(present == has_variable_named(cur, var@.name));
            if !present {
                variables.push(var.duplicate());
                assert(variables@.map_values(|v: TemplateVariable| v@) =~= cur.push(var@));
            }
            k = k + 1;
        }
        assert(extra.take(extra.len() as int) =~= extra);
        let mut sections = self.sections.clone();
        let mut s: usize = 0;
        let ghost base = self.sections@;
        while s < other.sections.len()
            invariant
                s <= other.sections@.len(),
                sections@ == base + other.sections@.take(s as int),
            decreases other.sections@.len() - s,
        {
            sections.push(other.sections[s].clone());
            assert(other.sections@.take(s + 1) =~= other.sections@.take(s as int).push(
                other.sections@[s as int],
            ));
            s = s + 1;
        }
        assert(other.sections@.take(other.sections@.len() as int) =~= other.sections@);
        let mut name = self.name.clone();
        name.append("_");
        name.append(other.name.as_str());
        let t = PromptTemplate {
            name,
            version: self.version.clone(),
            description: clone_opt(&self.description),
            template: new_template,
            variables,
            sections,
        };
        assert(t@.sections =~= self@.sections + other@.sections);
        Ok(t)
    }
}

} // verus!
