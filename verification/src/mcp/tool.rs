//! Tools: what they need, who calls them, and where they are found.

use vstd::prelude::*;

use crate::json::{option_view, text_view, Json, JsonView};
use crate::mcp::schema::{text_answer, Tool, ToolResponse};
use crate::mcp::tasks::TASKS_EXTENSION_ID;
use crate::text::same;

verus! {

// ---------------------------------------------------------------------------
// Capabilities
// ---------------------------------------------------------------------------

/// What a tool declares of itself, as a set of flags.
#[derive(Debug, Clone, Copy, PartialEq, Eq, Structural, Hash)]
pub struct ToolCapabilities {
    /// One bit for each flag.
    pub bits: u16,
}

impl ToolCapabilities {
    /// The tool requires an authenticated caller.
    pub fn requires_auth() -> (flag: Self)
        ensures
            flag.bits == 0b0000_0001,
    {
        ToolCapabilities { bits: 0b0000_0001 }
    }

    /// The tool requires a tenant.
    pub fn requires_tenant() -> (flag: Self)
        ensures
            flag.bits == 0b0000_0010,
    {
        ToolCapabilities { bits: 0b0000_0010 }
    }

    /// The tool requires a connected provider.
    pub fn requires_provider() -> (flag: Self)
        ensures
            flag.bits == 0b0000_0100,
    {
        ToolCapabilities { bits: 0b0000_0100 }
    }

    /// The tool only reads data.
    pub fn reads_data() -> (flag: Self)
        ensures
            flag.bits == 0b0000_1000,
    {
        ToolCapabilities { bits: 0b0000_1000 }
    }

    /// The tool writes data.
    pub fn writes_data() -> (flag: Self)
        ensures
            flag.bits == 0b0001_0000,
    {
        ToolCapabilities { bits: 0b0001_0000 }
    }

    /// Only an administrator may invoke the tool.
    pub fn admin_only() -> (flag: Self)
        ensures
            flag.bits == 0b0010_0000,
    {
        ToolCapabilities { bits: 0b0010_0000 }
    }

    /// The tool reads or writes the caller's own identity.
    pub fn profile() -> (flag: Self)
        ensures
            flag.bits == 0b0100_0000,
    {
        ToolCapabilities { bits: 0b0100_0000 }
    }

    /// Whether every flag of `other` is set.
    pub open spec fn has(self, other: ToolCapabilities) -> bool {
        self.bits & other.bits == other.bits
    }

    /// No flag.
    pub fn empty() -> (capabilities: Self)
        ensures
            capabilities.bits == 0,
    {
        ToolCapabilities { bits: 0 }
    }

    /// Whether every flag of `other` is set.
    pub fn contains(self, other: ToolCapabilities) -> (contained: bool)
        ensures
            contained == self.has(other),
    {
        self.bits & other.bits == other.bits
    }

    /// The flags of both.
    pub fn union(self, other: ToolCapabilities) -> (both: Self)
        ensures
            both.bits == self.bits | other.bits,
            both.has(self),
            both.has(other),
    {
        let a: u16 = self.bits;
        let b: u16 = other.bits;
        assert((a | b) & a == a) by (bit_vector);
        assert((a | b) & b == b) by (bit_vector);
        ToolCapabilities { bits: a | b }
    }
}

/// A set of flags contains another exactly when it contains each of its parts.
pub proof fn union_is_contained_when_both_are(
    whole: ToolCapabilities,
    a: ToolCapabilities,
    b: ToolCapabilities,
)
    ensures
        whole.has(ToolCapabilities { bits: a.bits | b.bits }) <==> whole.has(a) && whole.has(b),
{
    let w = whole.bits;
    let x = a.bits;
    let y = b.bits;
    assert((w & (x | y) == (x | y)) <==> (w & x == x && w & y == y)) by (bit_vector);
}

/// The flag of a tool that only an administrator may invoke.
pub open spec fn admin_flag() -> ToolCapabilities {
    ToolCapabilities { bits: 0b0010_0000 }
}

// ---------------------------------------------------------------------------
// Callers
// ---------------------------------------------------------------------------

/// Who calls a tool, and how.
#[derive(Debug)]
pub struct ToolContext {
    /// The authenticated caller.
    pub user_id: Option<String>,
    /// The tenant.
    pub tenant_id: Option<String>,
    /// How the caller authenticated.
    pub auth_method: Option<String>,
    /// Correlation id.
    pub request_id: Option<Json>,
    /// Whether the caller is an administrator.
    pub is_admin: bool,
    /// What the caller's credential grants.
    pub scopes: Vec<String>,
    /// What the client said it can do, for this request.
    pub client_capabilities: Option<Json>,
}

/// Who calls a tool, and how.
pub struct ContextView {
    /// The authenticated caller.
    pub user_id: Option<Seq<char>>,
    /// The tenant.
    pub tenant_id: Option<Seq<char>>,
    /// How the caller authenticated.
    pub auth_method: Option<Seq<char>>,
    /// Correlation id.
    pub request_id: Option<JsonView>,
    /// Whether the caller is an administrator.
    pub is_admin: bool,
    /// What the caller's credential grants.
    pub scopes: Seq<Seq<char>>,
    /// What the client said it can do.
    pub client_capabilities: Option<JsonView>,
}

impl View for ToolContext {
    type V = ContextView;

    open spec fn view(&self) -> ContextView {
        ContextView {
            user_id: text_view(self.user_id),
            tenant_id: text_view(self.tenant_id),
            auth_method: text_view(self.auth_method),
            request_id: option_view(self.request_id),
            is_admin: self.is_admin,
            scopes: Seq::new(self.scopes@.len(), |i: int| self.scopes@[i]@),
            client_capabilities: option_view(self.client_capabilities),
        }
    }
}

/// Nobody in particular.
pub open spec fn anonymous() -> ContextView {
    ContextView {
        user_id: None,
        tenant_id: None,
        auth_method: None,
        request_id: None,
        is_admin: false,
        scopes: Seq::empty(),
        client_capabilities: None,
    }
}

/// Whether a client's capabilities name an extension.
pub open spec fn names_extension(capabilities: Option<JsonView>, id: Seq<char>) -> bool {
    match capabilities {
        Some(capabilities) => match capabilities.member("extensions"@) {
            Some(extensions) => extensions.member(id) is Some,
            None => false,
        },
        None => false,
    }
}

/// Whether a client's capabilities name an extension.
pub fn declares(capabilities: &Option<Json>, id: &str) -> (declared: bool)
    ensures
        declared == names_extension(option_view(*capabilities), id@),
{
    match capabilities {
        Some(capabilities) => match capabilities.get("extensions") {
            Some(extensions) => extensions.get(id).is_some(),
            None => false,
        },
        None => false,
    }
}

impl ToolContext {
    /// Nobody in particular: no identity, no administrator.
    pub fn new() -> (ctx: Self)
        ensures
            ctx@ == anonymous(),
    {
        let ctx = ToolContext {
            user_id: None,
            tenant_id: None,
            auth_method: None,
            request_id: None,
            is_admin: false,
            scopes: Vec::new(),
            client_capabilities: None,
        };
        assert(ctx@.scopes =~= Seq::empty());
        ctx
    }

    /// The same caller, with an id.
    pub fn with_user(self, user_id: &str) -> (ctx: Self)
        ensures
            ctx@ == (ContextView { user_id: Some(user_id@), ..self@ }),
    {
        ToolContext { user_id: Some(user_id.to_owned()), ..self }
    }

    /// The same caller, of a tenant.
    pub fn with_tenant(self, tenant_id: &str) -> (ctx: Self)
        ensures
            ctx@ == (ContextView { tenant_id: Some(tenant_id@), ..self@ }),
    {
        ToolContext { tenant_id: Some(tenant_id.to_owned()), ..self }
    }

    /// The same caller, authenticated in a given way.
    pub fn with_auth_method(self, auth_method: &str) -> (ctx: Self)
        ensures
            ctx@ == (ContextView { auth_method: Some(auth_method@), ..self@ }),
    {
        ToolContext { auth_method: Some(auth_method.to_owned()), ..self }
    }

    /// The same caller, with a correlation id.
    pub fn with_request_id(self, request_id: Json) -> (ctx: Self)
        ensures
            ctx@ == (ContextView { request_id: Some(request_id@), ..self@ }),
    {
        ToolContext { request_id: Some(request_id), ..self }
    }

    /// The same caller, an administrator or not.
    pub fn as_admin(self, is_admin: bool) -> (ctx: Self)
        ensures
            ctx@ == (ContextView { is_admin, ..self@ }),
    {
        ToolContext { is_admin, ..self }
    }

    /// The same caller, through a client that can do what it says.
    pub fn with_client_capabilities(self, capabilities: Json) -> (ctx: Self)
        ensures
            ctx@ == (ContextView { client_capabilities: Some(capabilities@), ..self@ }),
    {
        ToolContext { client_capabilities: Some(capabilities), ..self }
    }

    /// Whether the client named an extension for this request.
    pub fn declares_extension(&self, id: &str) -> (declared: bool)
        ensures
            declared == names_extension(self@.client_capabilities, id@),
    {
        declares(&self.client_capabilities, id)
    }

    /// Whether the client can be handed a task.
    pub fn supports_tasks(&self) -> (supported: bool)
        ensures
            supported == names_extension(self@.client_capabilities, TASKS_EXTENSION_ID@),
    {
        self.declares_extension(TASKS_EXTENSION_ID)
    }
}

impl Default for ToolContext {
    fn default() -> (ctx: Self)
        ensures
            ctx@ == anonymous(),
    {
        ToolContext::new()
    }
}

// ---------------------------------------------------------------------------
// The registry
// ---------------------------------------------------------------------------

/// A tool with what runs it.
pub struct Registered<H> {
    /// The tool as clients see it.
    pub definition: Tool,
    /// What it declares of itself.
    pub capabilities: ToolCapabilities,
    /// What runs it.
    pub handler: H,
}

/// What a registry knows of a tool.
pub struct ToolEntry<H> {
    /// The tool's name.
    pub name: Seq<char>,
    /// The tool as clients see it.
    pub wire: JsonView,
    /// What it declares of itself.
    pub capabilities: ToolCapabilities,
    /// What runs it.
    pub handler: H,
}

impl<H> View for Registered<H> {
    type V = ToolEntry<H>;

    open spec fn view(&self) -> ToolEntry<H> {
        ToolEntry {
            name: self.definition.name@,
            wire: self.definition.wire(),
            capabilities: self.capabilities,
            handler: self.handler,
        }
    }
}

/// The first position of a name, or the number of entries.
pub open spec fn tool_index<H>(entries: Seq<ToolEntry<H>>, name: Seq<char>) -> int
    decreases entries.len(),
{
    if entries.len() == 0 {
        0
    } else if entries[0].name == name {
        0
    } else {
        1 + tool_index(entries.skip(1), name)
    }
}

/// `tool_index` is the position it is named for.
pub proof fn lemma_tool_index<H>(entries: Seq<ToolEntry<H>>, name: Seq<char>)
    ensures
        0 <= tool_index(entries, name) <= entries.len(),
        tool_index(entries, name) < entries.len() ==> entries[tool_index(entries, name)].name
            == name,
        forall|k: int| 0 <= k < tool_index(entries, name) ==> entries[k].name != name,
    decreases entries.len(),
{
    if entries.len() > 0 && entries[0].name != name {
        lemma_tool_index(entries.skip(1), name);
        assert forall|k: int| 0 <= k < tool_index(entries, name) implies entries[k].name
            != name by {
            if k > 0 {
                assert(entries.skip(1)[k - 1] == entries[k]);
            }
        }
    }
}

/// The entry of a name.
pub open spec fn tool_named<H>(entries: Seq<ToolEntry<H>>, name: Seq<char>) -> Option<ToolEntry<H>> {
    let at = tool_index(entries, name);
    if 0 <= at < entries.len() {
        Some(entries[at])
    } else {
        None
    }
}

/// The entries after one more tool was registered: in the place of the tool of its
/// name when there was one, behind the others when there was none.
pub open spec fn with_tool<H>(entries: Seq<ToolEntry<H>>, entry: ToolEntry<H>) -> Seq<ToolEntry<H>> {
    let at = tool_index(entries, entry.name);
    if 0 <= at < entries.len() {
        entries.update(at, entry)
    } else {
        entries.push(entry)
    }
}

/// The tools that a caller is shown: all of them to an administrator, those that are
/// not for administrators only to others.
pub open spec fn shown<H>(entries: Seq<ToolEntry<H>>, is_admin: bool) -> Seq<JsonView>
    decreases entries.len(),
{
    if entries.len() == 0 {
        Seq::empty()
    } else if is_admin || !entries.last().capabilities.has(admin_flag()) {
        shown(entries.drop_last(), is_admin).push(entries.last().wire)
    } else {
        shown(entries.drop_last(), is_admin)
    }
}

/// The JSON of a list of tools.
pub open spec fn tool_wires(tools: Seq<Tool>) -> Seq<JsonView> {
    Seq::new(tools.len(), |i: int| tools[i].wire())
}

/// Why a call is refused, or nothing when the tool is to run.
pub open spec fn call_refusal<H>(entries: Seq<ToolEntry<H>>, name: Seq<char>, is_admin: bool) -> Option<
    Seq<char>,
> {
    match tool_named(entries, name) {
        None => Some("Unknown tool: "@ + name),
        Some(entry) => if entry.capabilities.has(admin_flag()) && !is_admin {
            Some("Tool '"@ + name + "' requires admin privileges"@)
        } else {
            None
        },
    }
}

/// What to do with a call.
pub enum CallDecision<'a, H> {
    /// Run this.
    Run(&'a H),
    /// Answer this.
    Refuse(ToolResponse),
}

/// The names of the tools of a category.
pub struct Category {
    /// The category.
    pub name: String,
    /// The names of its tools, as they were registered.
    pub tools: Vec<String>,
}

/// What a registry knows of a category.
pub type CategoryView = (Seq<char>, Seq<Seq<char>>);

impl View for Category {
    type V = CategoryView;

    open spec fn view(&self) -> CategoryView {
        (self.name@, Seq::new(self.tools@.len(), |i: int| self.tools@[i]@))
    }
}

/// The first position of a category, or their number.
pub open spec fn category_index(categories: Seq<CategoryView>, name: Seq<char>) -> int
    decreases categories.len(),
{
    if categories.len() == 0 {
        0
    } else if categories[0].0 == name {
        0
    } else {
        1 + category_index(categories.skip(1), name)
    }
}

proof fn lemma_category_index(categories: Seq<CategoryView>, name: Seq<char>)
    ensures
        0 <= category_index(categories, name) <= categories.len(),
        category_index(categories, name) < categories.len() ==> categories[category_index(
            categories,
            name,
        )].0 == name,
        forall|k: int| 0 <= k < category_index(categories, name) ==> categories[k].0 != name,
    decreases categories.len(),
{
    if categories.len() > 0 && categories[0].0 != name {
        lemma_category_index(categories.skip(1), name);
        assert forall|k: int| 0 <= k < category_index(categories, name) implies categories[k].0
            != name by {
            if k > 0 {
                assert(categories.skip(1)[k - 1] == categories[k]);
            }
        }
    }
}

/// The tools of a category.
pub open spec fn category_tools(categories: Seq<CategoryView>, name: Seq<char>) -> Seq<Seq<char>> {
    let at = category_index(categories, name);
    if 0 <= at < categories.len() {
        categories[at].1
    } else {
        Seq::empty()
    }
}

/// The categories after one more tool was put under one.
pub open spec fn with_category(categories: Seq<CategoryView>, name: Seq<char>, tool: Seq<char>) -> Seq<
    CategoryView,
> {
    let at = category_index(categories, name);
    if 0 <= at < categories.len() {
        categories.update(at, (name, categories[at].1.push(tool)))
    } else {
        categories.push((name, Seq::empty().push(tool)))
    }
}

/// Tools by their name, each with what runs it.
pub struct ToolRegistry<H> {
    entries: Vec<Registered<H>>,
    categories: Vec<Category>,
}

impl<H> ToolRegistry<H> {
    /// What the registry knows of its tools, in the order of their first registration.
    pub closed spec fn tools(&self) -> Seq<ToolEntry<H>> {
        Seq::new(self.entries@.len(), |i: int| self.entries@[i]@)
    }

    /// What the registry knows of its categories, in the order of their first use.
    pub closed spec fn groups(&self) -> Seq<CategoryView> {
        Seq::new(self.categories@.len(), |i: int| self.categories@[i]@)
    }

    /// An empty registry.
    pub fn new() -> (registry: Self)
        ensures
            registry.tools() == Seq::<ToolEntry<H>>::empty(),
            registry.groups() == Seq::<CategoryView>::empty(),
    {
        let registry = ToolRegistry { entries: Vec::new(), categories: Vec::new() };
        assert(registry.tools() =~= Seq::<ToolEntry<H>>::empty());
        assert(registry.groups() =~= Seq::<CategoryView>::empty());
        registry
    }

    fn position(&self, name: &str) -> (at: usize)
        ensures
            at == tool_index(self.tools(), name@),
            at <= self.entries.len(),
    {
        proof {
            lemma_tool_index(self.tools(), name@);
        }
        let mut i: usize = 0;
        while i < self.entries.len()
            invariant
                i <= self.entries.len(),
                self.tools().len() == self.entries.len(),
                forall|k: int| 0 <= k < i ==> self.tools()[k].name != name@,
                0 <= tool_index(self.tools(), name@) <= self.tools().len(),
                tool_index(self.tools(), name@) < self.tools().len() ==> self.tools()[tool_index(
                    self.tools(),
                    name@,
                )].name == name@,
                forall|k: int|
                    0 <= k < tool_index(self.tools(), name@) ==> self.tools()[k].name != name@,
            decreases self.entries.len() - i,
        {
            if same(self.entries[i].definition.name.as_str(), name) {
                assert(self.tools()[i as int].name == name@);
                return i;
            }
            assert(self.tools()[i as int].name != name@);
            i += 1;
        }
        i
    }

    /// Registers a tool under the name of its definition.
    pub fn register(&mut self, definition: Tool, capabilities: ToolCapabilities, handler: H)
        ensures
            final(self).tools() == with_tool(
                old(self).tools(),
                ToolEntry {
                    name: definition.name@,
                    wire: definition.wire(),
                    capabilities,
                    handler,
                },
            ),
            final(self).groups() == old(self).groups(),
    {
        let at: usize = self.position(definition.name.as_str());
        let ghost before = self.tools();
        let entry = Registered { definition, capabilities, handler };
        let ghost added = entry@;
        if at < self.entries.len() {
            self.entries.set(at, entry);
            assert(self.tools() =~= before.update(at as int, added));
        } else {
            self.entries.push(entry);
            assert(self.tools() =~= before.push(added));
        }
        assert(self.groups() =~= old(self).groups());
    }

    /// Registers a tool, and puts it under a category.
    pub fn register_with_category(
        &mut self,
        definition: Tool,
        capabilities: ToolCapabilities,
        handler: H,
        category: &str,
    )
        ensures
            final(self).tools() == with_tool(
                old(self).tools(),
                ToolEntry {
                    name: definition.name@,
                    wire: definition.wire(),
                    capabilities,
                    handler,
                },
            ),
            final(self).groups() == with_category(
                old(self).groups(),
                category@,
                definition.name@,
            ),
    {
        let at: usize = self.category_position(category);
        let name = definition.name.clone();
        let ghost groups = self.groups();
        self.register(definition, capabilities, handler);
        let ghost tools = self.tools();
        proof {
            lemma_category_index(groups, category@);
        }
        if at < self.categories.len() {
            let mut names: Vec<String> = Vec::new();
            let ghost group = self.categories@[at as int]@;
            assert(groups[at as int] == group);
            std::mem::swap(&mut names, &mut self.categories[at].tools);
            names.push(name);
            let label = category.to_owned();
            let entry = Category { name: label, tools: names };
            assert(entry@.1 =~= group.1.push(name@));
            self.categories.set(at, entry);
            assert(self.groups() =~= groups.update(at as int, (category@, group.1.push(name@))));
        } else {
            let mut names: Vec<String> = Vec::new();
            names.push(name);
            let entry = Category { name: category.to_owned(), tools: names };
            assert(entry@.1 =~= Seq::empty().push(name@));
            self.categories.push(entry);
            assert(self.groups() =~= groups.push((category@, Seq::empty().push(name@))));
        }
        assert(self.tools() =~= tools);
    }

    fn category_position(&self, name: &str) -> (at: usize)
        ensures
            at == category_index(self.groups(), name@),
            at <= self.categories.len(),
    {
        proof {
            lemma_category_index(self.groups(), name@);
        }
        let mut i: usize = 0;
        while i < self.categories.len()
            invariant
                i <= self.categories.len(),
                self.groups().len() == self.categories.len(),
                forall|k: int| 0 <= k < i ==> self.groups()[k].0 != name@,
                0 <= category_index(self.groups(), name@) <= self.groups().len(),
                category_index(self.groups(), name@) < self.groups().len() ==> self.groups()[
                category_index(self.groups(), name@)].0 == name@,
                forall|k: int|
                    0 <= k < category_index(self.groups(), name@) ==> self.groups()[k].0 != name@,
            decreases self.categories.len() - i,
        {
            if same(self.categories[i].name.as_str(), name) {
                assert(self.groups()[i as int].0 == name@);
                return i;
            }
            assert(self.groups()[i as int].0 != name@);
            i += 1;
        }
        i
    }

    /// The number of tools.
    pub fn len(&self) -> (n: usize)
        ensures
            n == self.tools().len(),
    {
        self.entries.len()
    }

    /// Whether there is no tool.
    pub fn is_empty(&self) -> (empty: bool)
        ensures
            empty == (self.tools().len() == 0),
    {
        self.entries.len() == 0
    }

    /// The tools that a caller is shown.
    pub fn list_definitions_for(&self, is_admin: bool) -> (tools: Vec<Tool>)
        ensures
            tool_wires(tools@) == shown(self.tools(), is_admin),
    {
        let mut tools: Vec<Tool> = Vec::new();
        let ghost entries = self.tools();
        let mut i: usize = 0;
        assert(tool_wires(tools@) =~= Seq::<JsonView>::empty());
        while i < self.entries.len()
            invariant
                i <= self.entries.len(),
                entries == self.tools(),
                entries.len() == self.entries.len(),
                tool_wires(tools@) == shown(entries.take(i as int), is_admin),
            decreases self.entries.len() - i,
        {
            let ghost wires = tool_wires(tools@);
            proof {
                assert(entries.take(i + 1).drop_last() =~= entries.take(i as int));
                assert(entries.take(i + 1).last() == self.entries@[i as int]@);
            }
            if is_admin || !self.entries[i].capabilities.contains(ToolCapabilities::admin_only()) {
                let tool = self.entries[i].definition.dup();
                tools.push(tool);
                assert(tool_wires(tools@) =~= wires.push(tool.wire()));
            }
            i += 1;
        }
        assert(entries.take(i as int) =~= entries);
        tools
    }

    /// All the tools.
    pub fn list_definitions(&self) -> (tools: Vec<Tool>)
        ensures
            tool_wires(tools@) == shown(self.tools(), true),
    {
        self.list_definitions_for(true)
    }

    /// What a tool declares of itself.
    pub fn capabilities_of(&self, name: &str) -> (capabilities: Option<ToolCapabilities>)
        ensures
            capabilities == match tool_named(self.tools(), name@) {
                Some(entry) => Some(entry.capabilities),
                None => None,
            },
    {
        let at: usize = self.position(name);
        if at < self.entries.len() {
            Some(self.entries[at].capabilities)
        } else {
            None
        }
    }

    /// The categories.
    pub fn categories(&self) -> (names: Vec<&str>)
        ensures
            names@.len() == self.groups().len(),
            forall|i: int| 0 <= i < names@.len() ==> (#[trigger] names@[i])@ == self.groups()[i].0,
    {
        let mut names: Vec<&str> = Vec::new();
        let mut i: usize = 0;
        while i < self.categories.len()
            invariant
                i <= self.categories.len(),
                names.len() == i,
                self.groups().len() == self.categories.len(),
                forall|k: int| 0 <= k < i ==> (#[trigger] names@[k])@ == self.groups()[k].0,
            decreases self.categories.len() - i,
        {
            names.push(self.categories[i].name.as_str());
            assert(self.groups()[i as int].0 == self.categories@[i as int].name@);
            i += 1;
        }
        names
    }

    /// The names of the tools of a category.
    pub fn tools_in_category(&self, category: &str) -> (names: Vec<&str>)
        ensures
            names@.len() == category_tools(self.groups(), category@).len(),
            forall|i: int|
                0 <= i < names@.len() ==> (#[trigger] names@[i])@ == category_tools(
                    self.groups(),
                    category@,
                )[i],
    {
        let mut names: Vec<&str> = Vec::new();
        let at: usize = self.category_position(category);
        if at < self.categories.len() {
            let ghost tools = self.groups()[at as int].1;
            assert(tools == self.categories@[at as int]@.1);
            let mut i: usize = 0;
            while i < self.categories[at].tools.len()
                invariant
                    at < self.categories.len(),
                    i <= self.categories@[at as int].tools.len(),
                    names.len() == i,
                    tools == self.categories@[at as int]@.1,
                    forall|k: int| 0 <= k < i ==> (#[trigger] names@[k])@ == tools[k],
                decreases self.categories@[at as int].tools.len() - i,
            {
                names.push(self.categories[at].tools[i].as_str());
                i += 1;
            }
        }
        names
    }

    /// Decides on a call: a tool that is not there, or that is for administrators only,
    /// is not run.
    pub fn decide(&self, name: &str, ctx: &ToolContext) -> (decision: CallDecision<'_, H>)
        ensures
            match decision {
                CallDecision::Run(handler) => call_refusal(self.tools(), name@, ctx@.is_admin) is None
                    && (tool_named(self.tools(), name@) matches Some(entry) && *handler
                    == entry.handler),
                CallDecision::Refuse(response) => call_refusal(
                    self.tools(),
                    name@,
                    ctx@.is_admin,
                ) matches Some(words) && response.wire() == text_answer(words, true),
            },
    {
        let at: usize = self.position(name);
        if at >= self.entries.len() {
            return CallDecision::Refuse(
                ToolResponse::error("Unknown tool: ".to_owned().concat(name)),
            );
        }
        let entry = &self.entries[at];
        if entry.capabilities.contains(ToolCapabilities::admin_only()) && !ctx.is_admin {
            return CallDecision::Refuse(
                ToolResponse::error(
                    "Tool '".to_owned().concat(name).concat("' requires admin privileges"),
                ),
            );
        }
        CallDecision::Run(&entry.handler)
    }
}

impl<H> Default for ToolRegistry<H> {
    fn default() -> (registry: Self)
        ensures
            registry.tools() == Seq::<ToolEntry<H>>::empty(),
    {
        ToolRegistry::new()
    }
}

// ---------------------------------------------------------------------------
// Laws
// ---------------------------------------------------------------------------

/// Nobody but an administrator runs a tool that is for administrators only.
pub proof fn admin_tools_need_an_administrator<H>(entries: Seq<ToolEntry<H>>, name: Seq<char>)
    requires
        tool_named(entries, name) matches Some(entry) && entry.capabilities.has(admin_flag()),
    ensures
        call_refusal(entries, name, false) is Some,
        call_refusal(entries, name, true) is None,
{
}

/// A tool that was registered is found under its name, and every other tool is found
/// as before: registering replaces, and touches nothing else.
pub proof fn registering_replaces_by_name<H>(
    entries: Seq<ToolEntry<H>>,
    entry: ToolEntry<H>,
    other: Seq<char>,
)
    ensures
        tool_named(with_tool(entries, entry), entry.name) == Some(entry),
        other != entry.name ==> tool_named(with_tool(entries, entry), other) == tool_named(
            entries,
            other,
        ),
{
    let after = with_tool(entries, entry);
    lemma_tool_index(entries, entry.name);
    lemma_tool_index(after, entry.name);
    let at = tool_index(entries, entry.name);
    let found = tool_index(after, entry.name);
    assert(after[at] == entry);
    if found < at {
        assert(after[found] == entries[found]);
    }
    if other != entry.name {
        lemma_tool_index(entries, other);
        lemma_tool_index(after, other);
        let spot = tool_index(entries, other);
        let now = tool_index(after, other);
        if spot < entries.len() {
            assert(after[spot] == entries[spot]);
            if now < spot {
                assert(now != at);
                assert(after[now] == entries[now]);
            }
            assert(now == spot);
        } else if now < after.len() {
            assert(now != at);
            assert(after[now] == entries[now]);
        }
    }
}

} // verus!
