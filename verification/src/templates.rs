//! Templates split at their row block, and the registry of components.
//!
//! A component's template holds at most one meaningful `each_row` block at its
//! top level. Splitting cuts the template into what comes before the block,
//! the block's body, and what comes after it, so that the body can be rendered
//! once per row while rows are still arriving.

use crate::error::{Error, ErrorKind};
use crate::json::str_eq;
use handlebars::template::{TemplateElement, TemplateMapping};
use handlebars::{Handlebars, Template, TemplateError};
use vstd::prelude::*;
use vstd::string::StringExecFns;

verus! {

#[verifier::external_type_specification]
#[verifier::external_body]
pub struct ExTemplate(Template);

#[verifier::external_type_specification]
#[verifier::external_body]
pub struct ExTemplateElement(TemplateElement);

#[verifier::external_type_specification]
#[verifier::external_body]
pub struct ExTemplateMapping(TemplateMapping);

#[verifier::external_type_specification]
#[verifier::external_body]
pub struct ExTemplateError(TemplateError);

#[verifier::external_type_specification]
#[verifier::external_body]
pub struct ExHandlebars<'reg>(Handlebars<'reg>);

/// The `name` field of a template.
pub uninterp spec fn template_name(template: Template) -> Option<Seq<char>>;

/// The `elements` field of a template: its rendering instructions in order.
pub uninterp spec fn template_elements(template: Template) -> Seq<TemplateElement>;

/// The `mapping` field of a template: the source positions of its elements.
pub uninterp spec fn template_mapping(template: Template) -> Seq<TemplateMapping>;

/// The helper's name, where an element is a helper block whose name is a
/// plain name; `None` for every other element.
pub uninterp spec fn block_name(element: TemplateElement) -> Option<Seq<char>>;

/// The body of a helper block, where an element is one and has a body.
pub uninterp spec fn block_body(element: TemplateElement) -> Option<Template>;

/// Moves the three fields out of a `handlebars::Template`.
#[verifier::external_body]
fn template_into_parts(template: Template) -> (r: (
    Option<String>,
    Vec<TemplateElement>,
    Vec<TemplateMapping>,
))
    ensures
        match r.0 {
            Some(n) => template_name(template) == Some(n@),
            None => template_name(template) is None,
        },
        r.1@ == template_elements(template),
        r.2@ == template_mapping(template),
{
    (template.name, template.elements, template.mapping)
}

/// Builds a `handlebars::Template` from its three fields.
#[verifier::external_body]
fn template_from_parts(
    name: Option<String>,
    elements: Vec<TemplateElement>,
    mapping: Vec<TemplateMapping>,
) -> (r: Template)
    ensures
        match name {
            Some(n) => template_name(r) == Some(n@),
            None => template_name(r) is None,
        },
        template_elements(r) == elements@,
        template_mapping(r) == mapping@,
{
    Template { name, elements, mapping }
}

/// Reads the `name` field of a `handlebars::Template`.
#[verifier::external_body]
pub(crate) fn template_name_ref(template: &Template) -> (r: Option<&str>)
    ensures
        match r {
            Some(n) => template_name(*template) == Some(n@),
            None => template_name(*template) is None,
        },
{
    template.name.as_deref()
}

/// Reads the helper name of a `TemplateElement::HelperBlock` whose name is a
/// `Parameter::Name`.
#[verifier::external_body]
fn element_block_name(element: &TemplateElement) -> (r: Option<&str>)
    ensures
        match r {
            Some(n) => block_name(*element) == Some(n@),
            None => block_name(*element) is None,
        },
{
    match element {
        TemplateElement::HelperBlock(helper) => match &helper.name {
            handlebars::template::Parameter::Name(name) => Some(name.as_str()),
            _ => None,
        },
        _ => None,
    }
}

/// Moves the `template` field out of a `TemplateElement::HelperBlock`.
#[verifier::external_body]
fn element_into_body(element: TemplateElement) -> (r: Option<Template>)
    ensures
        r == block_body(element),
{
    match element {
        TemplateElement::HelperBlock(helper) => helper.template,
        _ => None,
    }
}

/// The three fragments of a template that was split at its row block.
pub struct SplitTemplate {
    pub before_list: Template,
    pub list_content: Template,
    pub after_list: Template,
}

/// The name of the helper block that marks the part repeated for each row.
pub open spec fn row_block_name() -> Seq<char> {
    "each_row"@
}

/// Whether an element is the block that is repeated for each row.
pub open spec fn is_row_block(element: TemplateElement) -> bool {
    block_name(element) == Some(row_block_name())
}

/// The position of the first row block among `elements`, or their number
/// where there is none.
pub open spec fn row_block_position(elements: Seq<TemplateElement>) -> nat
    decreases elements.len(),
{
    if elements.len() == 0 || is_row_block(elements[0]) {
        0
    } else {
        1 + row_block_position(elements.drop_first())
    }
}

/// `row_block_position` is the one position before which no element is a row
/// block and at which one stands, if it lies inside the sequence.
pub proof fn lemma_row_block_position(elements: Seq<TemplateElement>, i: int)
    requires
        0 <= i <= elements.len(),
        forall|j: int| 0 <= j < i ==> !is_row_block(#[trigger] elements[j]),
        i < elements.len() ==> is_row_block(elements[i]),
    ensures
        row_block_position(elements) == i,
    decreases elements.len(),
{
    if i > 0 {
        let rest = elements.drop_first();
        assert(!is_row_block(elements[0]));
        assert forall|j: int| 0 <= j < i - 1 implies !is_row_block(#[trigger] rest[j]) by {
            assert(rest[j] == elements[j + 1]);
        }
        if i - 1 < rest.len() {
            assert(rest[i - 1] == elements[i]);
        }
        lemma_row_block_position(rest, i - 1);
    }
}

/// The elements that a split puts before the row block.
pub open spec fn elements_before(elements: Seq<TemplateElement>) -> Seq<TemplateElement> {
    elements.take(row_block_position(elements) as int)
}

/// The elements that a split puts after the row block.
pub open spec fn elements_after(elements: Seq<TemplateElement>) -> Seq<TemplateElement> {
    let i = row_block_position(elements);
    if i < elements.len() {
        elements.skip((i + 1) as int)
    } else {
        Seq::empty()
    }
}

/// The source positions that go with `elements_before`. A template whose
/// mapping is shorter than its elements keeps what it has.
pub open spec fn mapping_before(
    elements: Seq<TemplateElement>,
    mapping: Seq<TemplateMapping>,
) -> Seq<TemplateMapping> {
    let i = row_block_position(elements);
    if i < elements.len() && i < mapping.len() {
        mapping.take(i as int)
    } else {
        mapping
    }
}

/// The source positions that go with `elements_after`.
pub open spec fn mapping_after(
    elements: Seq<TemplateElement>,
    mapping: Seq<TemplateMapping>,
) -> Seq<TemplateMapping> {
    let i = row_block_position(elements);
    if i < elements.len() && i + 1 <= mapping.len() {
        mapping.skip((i + 1) as int)
    } else {
        Seq::empty()
    }
}

/// The body of the first row block, if there is a row block with a body.
pub open spec fn row_body(elements: Seq<TemplateElement>) -> Option<Template> {
    let i = row_block_position(elements);
    if i < elements.len() {
        block_body(elements[i as int])
    } else {
        None
    }
}

/// The elements rendered for each row: those of the row block's body.
pub open spec fn elements_per_row(elements: Seq<TemplateElement>) -> Seq<TemplateElement> {
    match row_body(elements) {
        Some(body) => template_elements(body),
        None => Seq::empty(),
    }
}

/// The source positions that go with `elements_per_row`.
pub open spec fn mapping_per_row(elements: Seq<TemplateElement>) -> Seq<TemplateMapping> {
    match row_body(elements) {
        Some(body) => template_mapping(body),
        None => Seq::empty(),
    }
}

/// Whether `element` is an `each_row` helper block.
pub fn is_template_list_item(element: &TemplateElement) -> (r: bool)
    ensures
        r == is_row_block(*element),
{
    match element_block_name(element) {
        Some(name) => str_eq(name, "each_row"),
        None => false,
    }
}

fn clone_name(name: &Option<String>) -> (r: Option<String>)
    ensures
        match (r, *name) {
            (Some(a), Some(b)) => a@ == b@,
            (None, None) => true,
            _ => false,
        },
{
    match name {
        Some(n) => Some(n.clone()),
        None => None,
    }
}

impl SplitTemplate {
    /// The name that the three fragments share with the template they came from.
    pub open spec fn spec_name(self) -> Option<Seq<char>> {
        template_name(self.before_list)
    }

    /// The template's name, for diagnostics.
    pub fn name(&self) -> (r: Option<&str>)
        ensures
            match r {
                Some(n) => self.spec_name() == Some(n@),
                None => self.spec_name() is None,
            },
    {
        template_name_ref(&self.before_list)
    }
}

/// Whether `split` is what splitting `original` at its first top-level row
/// block gives: the three fragments carry the original's name, and between
/// them its elements and source positions but for the block itself.
pub open spec fn is_split_of(original: Template, split: SplitTemplate) -> bool {
    let elements = template_elements(original);
    let mapping = template_mapping(original);
    &&& template_name(split.before_list) == template_name(original)
    &&& template_name(split.list_content) == template_name(original)
    &&& template_name(split.after_list) == template_name(original)
    &&& template_elements(split.before_list) == elements_before(elements)
    &&& template_elements(split.list_content) == elements_per_row(elements)
    &&& template_elements(split.after_list) == elements_after(elements)
    &&& template_mapping(split.before_list) == mapping_before(elements, mapping)
    &&& template_mapping(split.list_content) == mapping_per_row(elements)
    &&& template_mapping(split.after_list) == mapping_after(elements, mapping)
}

/// Splits a template at its first top-level `each_row` block.
///
/// What stands before the block becomes `before_list`, the block's body
/// `list_content`, what stands after it `after_list`. A template without such
/// a block is `before_list` as a whole, with nothing per row and nothing
/// after. All three fragments keep the template's name.
pub fn split_template(original: Template) -> (r: SplitTemplate)
    ensures
        is_split_of(original, r),
{
    let (name, mut elements, mut mapping) = template_into_parts(original);
    let ghost all_elements = elements@;
    let ghost all_mapping = mapping@;
    let mut tail_elements: Vec<TemplateElement> = Vec::new();
    let mut tail_mapping: Vec<TemplateMapping> = Vec::new();
    let mut items_template: Option<Template> = None;

    let mut idx: usize = 0;
    while idx < elements.len() && !is_template_list_item(&elements[idx])
        invariant
            idx <= elements.len(),
            elements@ == all_elements,
            forall|j: int| 0 <= j < idx ==> !is_row_block(#[trigger] all_elements[j]),
        decreases elements.len() - idx,
    {
        idx += 1;
    }
    proof {
        lemma_row_block_position(all_elements, idx as int);
    }
    if idx < elements.len() {
        tail_elements = elements.split_off(idx + 1);
        if idx + 1 <= mapping.len() {
            tail_mapping = mapping.split_off(idx + 1);
        }
        mapping.truncate(idx);
        match elements.pop() {
            Some(block) => {
                items_template = element_into_body(block);
            },
            None => {},
        }
        assert(elements@ == all_elements.take(idx as int));
    } else {
        assert(elements@ == all_elements.take(idx as int));
    }
    let (list_elements, list_mapping) = match items_template {
        Some(body) => {
            let (_, body_elements, body_mapping) = template_into_parts(body);
            (body_elements, body_mapping)
        },
        None => (Vec::new(), Vec::new()),
    };
    let r = SplitTemplate {
        before_list: template_from_parts(clone_name(&name), elements, mapping),
        list_content: template_from_parts(clone_name(&name), list_elements, list_mapping),
        after_list: template_from_parts(name, tail_elements, tail_mapping),
    };
    proof {
        assert(template_elements(r.before_list) == elements_before(all_elements));
        assert(template_elements(r.list_content) == elements_per_row(all_elements));
        assert(template_elements(r.after_list) == elements_after(all_elements));
        assert(template_mapping(r.before_list) == mapping_before(all_elements, all_mapping));
        assert(template_mapping(r.list_content) == mapping_per_row(all_elements));
        assert(template_mapping(r.after_list) == mapping_after(all_elements, all_mapping));
    }
    r
}

/// A template without a row block is rendered once, as a whole: it is
/// `before_list` unchanged, and nothing is left for the rows or for the end.
pub proof fn lemma_split_without_row_block(original: Template, split: SplitTemplate)
    requires
        is_split_of(original, split),
        forall|i: int|
            0 <= i < template_elements(original).len() ==> !is_row_block(
                #[trigger] template_elements(original)[i],
            ),
    ensures
        template_name(split.before_list) == template_name(original),
        template_elements(split.before_list) == template_elements(original),
        template_mapping(split.before_list) == template_mapping(original),
        template_elements(split.list_content).len() == 0,
        template_elements(split.after_list).len() == 0,
{
    let elements = template_elements(original);
    lemma_row_block_position(elements, elements.len() as int);
    assert(elements.take(elements.len() as int) == elements);
}

/// What `Template::compile_with_name` makes of a source text and a name:
/// `None` where the text is no valid template.
pub uninterp spec fn compiled_template(source: Seq<char>, name: Seq<char>) -> Option<Template>;

/// Calls `Template::compile_with_name`. The template that comes back carries
/// the name it was given.
#[verifier::external_body]
fn compile_with_name(source: &str, name: &str) -> (r: Result<Template, TemplateError>)
    ensures
        match r {
            Ok(t) => compiled_template(source@, name@) == Some(t) && template_name(t) == Some(
                name@,
            ),
            Err(_) => compiled_template(source@, name@) is None,
        },
{
    Template::compile_with_name(source, name.to_owned())
}

/// The text of a `TemplateError`, as its `Display` prints it.
pub uninterp spec fn template_error_text(error: TemplateError) -> Seq<char>;

/// Calls `to_string` on a `TemplateError`.
#[verifier::external_body]
fn template_error_message(error: &TemplateError) -> (r: String)
    ensures
        r@ == template_error_text(*error),
{
    error.to_string()
}

/// The components that can be rendered, by name, and the template engine
/// that renders them.
pub struct AllTemplates {
    /// The engine, with the helpers that the templates call.
    pub handlebars: Handlebars<'static>,
    split_templates: Vec<(String, SplitTemplate)>,
}

/// The position of the entry that a name refers to: the last one registered
/// under it.
pub open spec fn template_position(
    templates: Seq<(String, SplitTemplate)>,
    name: Seq<char>,
) -> Option<int>
    decreases templates.len(),
{
    if templates.len() == 0 {
        None
    } else if templates.last().0@ == name {
        Some(templates.len() - 1)
    } else {
        template_position(templates.drop_last(), name)
    }
}

/// The message of the error for a component that is not registered.
pub open spec fn not_found_message(name: Seq<char>) -> Seq<char> {
    "The component '"@ + name + "' was not found."@
}

impl AllTemplates {
    /// The registered components in the order of their registration.
    pub closed spec fn entries(self) -> Seq<(String, SplitTemplate)> {
        self.split_templates@
    }

    /// The template engine of the registry.
    pub closed spec fn engine(self) -> Handlebars<'static> {
        self.handlebars
    }

    /// The component that `name` refers to, if one is registered under it.
    pub open spec fn component(self, name: Seq<char>) -> Option<SplitTemplate> {
        match template_position(self.entries(), name) {
            Some(i) => Some(self.entries()[i].1),
            None => None,
        }
    }

    /// The template engine of the registry.
    pub fn engine_ref(&self) -> (r: &Handlebars<'static>)
        ensures
            *r == self.engine(),
    {
        &self.handlebars
    }

    /// A registry without components around a template engine.
    pub fn init(handlebars: Handlebars<'static>) -> (r: Self)
        ensures
            r.entries().len() == 0,
            r.engine() == handlebars,
    {
        AllTemplates { handlebars, split_templates: Vec::new() }
    }

    /// Compiles a component's source, splits it and registers it under `name`.
    /// A component registered later under the same name replaces the earlier.
    pub fn add_template(&mut self, name: &str, source: &str) -> (r: Result<(), Error>)
        ensures
            final(self).engine() == old(self).engine(),
            match r {
                Ok(()) => {
                    &&& compiled_template(source@, name@) is Some
                    &&& final(self).entries().len() == old(self).entries().len() + 1
                    &&& final(self).entries().drop_last() == old(self).entries()
                    &&& final(self).entries().last().0@ == name@
                    &&& is_split_of(
                        compiled_template(source@, name@)->0,
                        final(self).entries().last().1,
                    )
                },
                Err(e) => {
                    &&& compiled_template(source@, name@) is None
                    &&& final(self).entries() == old(self).entries()
                    &&& e.kind == ErrorKind::Render
                    &&& e.causes@.len() == 0
                },
            },
    {
        match compile_with_name(source, name) {
            Ok(template) => {
                let split = split_template(template);
                self.split_templates.push((name.to_owned(), split));
                assert(self.split_templates@.drop_last() == old(self).split_templates@);
                Ok(())
            },
            Err(e) => {
                let message = template_error_message(&e);
                Err(Error::new(ErrorKind::Render, message.as_str()))
            },
        }
    }

    /// Registers the components that are known from the start, each given by
    /// its name and its source. Stops at the first source that does not
    /// compile; what was registered before it stays.
    pub fn preregister_static_templates(&mut self, files: &Vec<(String, String)>) -> (r: Result<
        (),
        Error,
    >)
        ensures
            final(self).engine() == old(self).engine(),
            r is Ok <==> forall|i: int|
                0 <= i < files@.len() ==> (#[trigger] compiled_template(
                    files@[i].1@,
                    files@[i].0@,
                )) is Some,
            r is Ok ==> final(self).entries().len() == old(self).entries().len() + files@.len(),
            r is Ok ==> forall|i: int|
                0 <= i < files@.len() ==> {
                    let entry = #[trigger] final(self).entries()[old(self).entries().len() + i];
                    &&& entry.0@ == files@[i].0@
                    &&& is_split_of(compiled_template(files@[i].1@, files@[i].0@)->0, entry.1)
                },
            old(self).entries().len() <= final(self).entries().len(),
            final(self).entries().take(old(self).entries().len() as int) == old(self).entries(),
    {
        let mut i: usize = 0;
        while i < files.len()
            invariant
                i <= files.len(),
                self.engine() == old(self).engine(),
                self.entries().len() == old(self).entries().len() + i,
                self.entries().take(old(self).entries().len() as int) == old(self).entries(),
                forall|j: int|
                    0 <= j < i ==> (#[trigger] compiled_template(files@[j].1@, files@[j].0@))
                        is Some,
                forall|j: int|
                    0 <= j < i ==> {
                        let entry = #[trigger] self.entries()[old(self).entries().len() + j];
                        &&& entry.0@ == files@[j].0@
                        &&& is_split_of(
                            compiled_template(files@[j].1@, files@[j].0@)->0,
                            entry.1,
                        )
                    },
            decreases files.len() - i,
        {
            let ghost before = self.entries();
            match self.add_template(files[i].0.as_str(), files[i].1.as_str()) {
                Ok(()) => {},
                Err(e) => {
                    return Err(e);
                },
            }
            proof {
                let n = old(self).entries().len() as int;
                assert(self.entries().drop_last() == before);
                assert(self.entries().take(n) =~= before.take(n));
                assert forall|j: int| 0 <= j < i + 1 implies {
                    let entry = #[trigger] self.entries()[n + j];
                    &&& entry.0@ == files@[j].0@
                    &&& is_split_of(compiled_template(files@[j].1@, files@[j].0@)->0, entry.1)
                } by {
                    if j < i {
                        assert(self.entries()[n + j] == before[n + j]);
                    }
                }
            }
            i += 1;
        }
        Ok(())
    }

    /// Looks a component up by its name.
    pub fn get_template(&self, name: &str) -> (r: Result<&SplitTemplate, Error>)
        ensures
            match r {
                Ok(t) => self.component(name@) == Some(*t),
                Err(e) => {
                    &&& self.component(name@) is None
                    &&& e.kind == ErrorKind::ComponentNotFound
                    &&& e.message@ == not_found_message(name@)
                    &&& e.causes@.len() == 0
                    &&& e.status is None
                    &&& !e.pool_timed_out
                },
            },
    {
        let mut i: usize = self.split_templates.len();
        assert(self.entries().take(i as int) == self.entries());
        while i > 0
            invariant
                i <= self.split_templates.len(),
                template_position(self.entries(), name@) == template_position(
                    self.entries().take(i as int),
                    name@,
                ),
            decreases i,
        {
            i -= 1;
            let found = str_eq(self.split_templates[i].0.as_str(), name);
            proof {
                let prefix = self.entries().take(i + 1);
                assert(prefix.last() == self.entries()[i as int]);
                assert(prefix.drop_last() == self.entries().take(i as int));
                assert(template_position(prefix, name@) == if found {
                    Some(i as int)
                } else {
                    template_position(self.entries().take(i as int), name@)
                });
            }
            if found {
                return Ok(&self.split_templates[i].1);
            }
        }
        assert(self.entries().take(0).len() == 0);
        let message = String::from_str("The component '").concat(name).concat(
            "' was not found.",
        );
        let e = Error::new(ErrorKind::ComponentNotFound, message.as_str());
        Err(e)
    }
}

} // verus!
