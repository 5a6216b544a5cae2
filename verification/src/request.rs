//! Chat requests: generation options, tool descriptors, the optional
//! structured-output constraint, and the policy deciding when that constraint
//! is attached.

use vstd::prelude::*;

use crate::message::{ChatMessage, RoleView};

verus! {

/// A structured-output constraint: either plain JSON or a JSON document
/// matching a schema given as text.
#[derive(Debug)]
pub enum FormatType {
    Json,
    Schema(String),
}

/// Mathematical image of a [`FormatType`].
pub enum FormatView {
    Json,
    Schema(Seq<char>),
}

impl View for FormatType {
    type V = FormatView;

    open spec fn view(&self) -> FormatView {
        match self {
            FormatType::Json => FormatView::Json,
            FormatType::Schema(schema) => FormatView::Schema(schema@),
        }
    }
}

impl Clone for FormatType {
    fn clone(&self) -> (r: Self)
        ensures
            r == *self,
    {
        match self {
            FormatType::Json => FormatType::Json,
            FormatType::Schema(schema) => FormatType::Schema(schema.clone()),
        }
    }
}

/// One named generation option, passed through to the service untouched.
#[derive(Debug)]
pub struct OptionEntry {
    pub key: String,
    pub value: String,
}

impl Clone for OptionEntry {
    fn clone(&self) -> (r: Self)
        ensures
            r == *self,
    {
        OptionEntry { key: self.key.clone(), value: self.value.clone() }
    }
}

/// Generation options: an opaque, ordered key/value bag. The coordinator
/// never interprets it; it is carried into every request as given.
#[derive(Debug)]
pub struct ModelOptions {
    pub entries: Vec<OptionEntry>,
}

impl View for ModelOptions {
    type V = Seq<(Seq<char>, Seq<char>)>;

    open spec fn view(&self) -> Seq<(Seq<char>, Seq<char>)> {
        self.entries@.map_values(|e: OptionEntry| (e.key@, e.value@))
    }
}

impl Clone for ModelOptions {
    fn clone(&self) -> (r: Self)
        ensures
            r@ == self@,
    {
        let entries = self.entries.clone();
        proof {
            assert forall|i: int| 0 <= i < self.entries@.len() implies entries@[i]
                == self.entries@[i] by {
                assert(cloned::<OptionEntry>(self.entries@[i], entries@[i]));
            }
            assert(entries@ =~= self.entries@);
        }
        ModelOptions { entries }
    }
}

impl Default for ModelOptions {
    /// The empty option bag.
    fn default() -> (r: Self)
        ensures
            r@ == Seq::<(Seq<char>, Seq<char>)>::empty(),
    {
        let r = ModelOptions { entries: Vec::new() };
        proof {
            assert(r@ =~= Seq::<(Seq<char>, Seq<char>)>::empty());
        }
        r
    }
}

impl ModelOptions {
    /// Append one named option.
    pub fn set(&mut self, key: String, value: String)
        ensures
            final(self)@ == old(self)@.push((key@, value@)),
    {
        let ghost before = self@;
        self.entries.push(OptionEntry { key, value });
        proof {
            assert(self@ =~= before.push((self.entries@.last().key@, self.entries@.last().value@)));
        }
    }
}

/// What a request tells the model about one callable tool: its name, a
/// human-readable description, and a parameter schema given as text.
#[derive(Debug)]
pub struct ToolDescriptor {
    pub name: String,
    pub description: String,
    pub parameters: String,
}

/// Mathematical image of a [`ToolDescriptor`].
pub struct DescriptorView {
    pub name: Seq<char>,
    pub description: Seq<char>,
    pub parameters: Seq<char>,
}

impl View for ToolDescriptor {
    type V = DescriptorView;

    open spec fn view(&self) -> DescriptorView {
        DescriptorView {
            name: self.name@,
            description: self.description@,
            parameters: self.parameters@,
        }
    }
}

impl Clone for ToolDescriptor {
    fn clone(&self) -> (r: Self)
        ensures
            r == *self,
    {
        ToolDescriptor {
            name: self.name.clone(),
            description: self.description.clone(),
            parameters: self.parameters.clone(),
        }
    }
}

/// Everything one round trip hands to the remote chat service.
pub struct ChatRequest {
    pub model: String,
    pub messages: Vec<ChatMessage>,
    pub options: ModelOptions,
    pub tools: Vec<ToolDescriptor>,
    pub format: Option<FormatType>,
}

/// The format-constraint policy: a configured constraint may be attached when
/// no tools are registered, or, with tools registered, only once the most
/// recent stored message is a tool result. On a tool-enabled conversation's
/// earlier turns the constraint is withheld so that it cannot suppress the
/// model's tool-call intent.
pub open spec fn format_applies(has_tools: bool, last_role: Option<RoleView>) -> bool {
    ||| !has_tools
    ||| last_role == Some(RoleView::Tool)
}

/// With no tools registered, the constraint applies whatever the history
/// holds.
pub proof fn lemma_format_without_tools(last_role: Option<RoleView>)
    ensures
        format_applies(false, last_role),
{
}

/// With tools registered and the latest stored message not a tool result,
/// the constraint never applies.
pub proof fn lemma_format_withheld(last_role: Option<RoleView>)
    requires
        last_role != Some(RoleView::Tool),
    ensures
        !format_applies(true, last_role),
{
}

/// With tools registered and a tool result as the latest stored message, the
/// constraint applies.
pub proof fn lemma_format_after_tool_result()
    ensures
        format_applies(true, Some(RoleView::Tool)),
{
}

} // verus!
