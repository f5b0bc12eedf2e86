//! The tools that the model may call, and the registry that finds them by
//! name.
use vstd::prelude::*;

use crate::json::{put, values, Json, JsonView};
use crate::order::{
    is_sorted_list, is_stable_order, places, sorted_list, sorted_list_is_unique, sorted_unique,
    stable_order, text_lt, text_order_is_total,
};
use crate::text::{joined, same_text, texts};

verus! {

/// Why a tool call failed, over a type of text.
#[derive(Debug)]
pub enum ToolError<T> {
    /// There is no tool of this name.
    Unknown(T),
    /// The tool itself failed, with this message.
    Failed(T),
}

impl ToolError<String> {
    /// The error with its characters.
    pub open spec fn view(&self) -> ToolError<Seq<char>> {
        match self {
            ToolError::Unknown(name) => ToolError::Unknown(name@),
            ToolError::Failed(message) => ToolError::Failed(message@),
        }
    }

    /// The message for the model.
    pub fn message(&self) -> (text: String)
        ensures
            text@ == error_message(self@),
    {
        match self {
            ToolError::Unknown(name) => joined("unknown tool: ", name.as_str()),
            ToolError::Failed(message) => message.clone(),
        }
    }
}

/// The message of an error.
pub open spec fn error_message(error: ToolError<Seq<char>>) -> Seq<char> {
    match error {
        ToolError::Unknown(name) => "unknown tool: "@ + name,
        ToolError::Failed(message) => message,
    }
}

/// The characters of a tool's result.
pub open spec fn result_view(result: Result<String, ToolError<String>>) -> Result<
    Seq<char>,
    ToolError<Seq<char>>,
> {
    match result {
        Ok(text) => Ok(text@),
        Err(error) => Err(error@),
    }
}

/// What every tool offers. Nothing is asked of what a tool answers: the
/// registry goes by the answers that it gets.
pub trait Tool: Send + Sync {
    /// The name by which the model calls the tool.
    fn name(&self) -> (name: &str);

    /// What the tool does, in one line.
    fn description(&self) -> (description: &str);

    /// The JSON schema of the tool's input.
    fn schema(&self) -> (schema: Json);

    /// Runs the tool.
    fn execute(&self, input: Json) -> (result: Result<String, ToolError<String>>);
}

/// Whether the tool may say that this is its name.
pub open spec fn may_be_named<T: Tool>(tool: T, name: Seq<char>) -> bool {
    exists|text: &str| #[trigger] call_ensures(T::name, (&tool,), text) && text@ == name
}

/// Whether the tool may describe itself so.
pub open spec fn may_be_described<T: Tool>(tool: T, description: Seq<char>) -> bool {
    exists|text: &str|
        #[trigger] call_ensures(T::description, (&tool,), text) && text@ == description
}

/// Whether the tool may give this schema.
pub open spec fn may_have_schema<T: Tool>(tool: T, schema: JsonView) -> bool {
    exists|value: Json| #[trigger] call_ensures(T::schema, (&tool,), value) && value@ == schema
}

/// Whether the tool may give this result for this input.
pub open spec fn may_give<T: Tool>(
    tool: T,
    input: Json,
    result: Result<String, ToolError<String>>,
) -> bool {
    call_ensures(T::execute, (&tool, input), result)
}

/// Whether the tool always says that it has the same name.
pub open spec fn has_constant_name<T: Tool>(tool: T) -> bool {
    forall|one: Seq<char>, other: Seq<char>|
        #[trigger] may_be_named(tool, one) && #[trigger] may_be_named(tool, other) ==> one == other
}

/// The definition of a tool that the model is given.
pub open spec fn definition(
    name: Seq<char>,
    description: Seq<char>,
    schema: JsonView,
) -> JsonView {
    JsonView::Object(
        map![
            "type"@ => JsonView::Text("function"@),
            "function"@ => JsonView::Object(
                map![
                    "name"@ => JsonView::Text(name),
                    "description"@ => JsonView::Text(description),
                    "parameters"@ => schema,
                ],
            ),
        ],
    )
}

/// Whether the model may be given this definition of the tool, which says that
/// its name is `name`.
pub open spec fn may_be_defined<T: Tool>(tool: T, name: Seq<char>, value: JsonView) -> bool {
    &&& may_be_named(tool, name)
    &&& exists|description: Seq<char>, schema: JsonView|
        may_be_described(tool, description) && may_have_schema(tool, schema) && value
            == #[trigger] definition(name, description, schema)
}

/// The name in a definition.
pub open spec fn defined_name(value: JsonView) -> Seq<char> {
    crate::json::or_empty(value.at("function"@).text_at("name"@))
}

/// The names in a list of definitions.
pub open spec fn defined_names(list: Seq<JsonView>) -> Seq<Seq<char>> {
    Seq::new(list.len(), |i: int| defined_name(list[i]))
}

proof fn lemma_defined_name(name: Seq<char>, description: Seq<char>, schema: JsonView)
    ensures
        defined_name(definition(name, description, schema)) == name,
{
    reveal_strlit("type");
    reveal_strlit("function");
    reveal_strlit("name");
    reveal_strlit("description");
    reveal_strlit("parameters");
    assert("type"@.len() == 4 && "function"@.len() == 8);
    assert("name"@.len() == 4 && "description"@.len() == 11 && "parameters"@.len() == 10);
}

/// Whether the list defines the tools of a map, each once, under `keys`, and
/// goes by the names in the definitions.
pub open spec fn defines<T: Tool>(
    tools: Map<Seq<char>, T>,
    keys: Seq<Seq<char>>,
    list: Seq<JsonView>,
) -> bool {
    &&& list.len() == keys.len()
    &&& keys.no_duplicates()
    &&& forall|key: Seq<char>| #[trigger] tools.dom().contains(key) <==> keys.contains(key)
    &&& forall|i: int|
        0 <= i < list.len() ==> may_be_defined(
            tools[keys[i]],
            defined_name(list[i]),
            #[trigger] list[i],
        )
    &&& forall|i: int, j: int|
        0 <= i < j < list.len() ==> !text_lt(
            defined_name(#[trigger] list[j]),
            defined_name(#[trigger] list[i]),
        )
}

/// Where every tool has a constant name, under which it is registered, the
/// names in the definitions are the names of the tools in order, whatever the
/// order in which they were registered.
pub proof fn definitions_go_by_name<T: Tool>(
    tools: Map<Seq<char>, T>,
    keys: Seq<Seq<char>>,
    list: Seq<JsonView>,
)
    requires
        defines(tools, keys, list),
        forall|key: Seq<char>| #[trigger]
            tools.dom().contains(key) ==> may_be_named(tools[key], key) && has_constant_name(
                tools[key],
            ),
    ensures
        is_sorted_list(defined_names(list), tools.dom()),
        defined_names(list) == sorted_list(tools.dom()),
{
    let names = defined_names(list);
    assert forall|i: int| 0 <= i < list.len() implies #[trigger] names[i] == keys[i] by {
        assert(keys.contains(keys[i]));
        assert(tools.dom().contains(keys[i]));
        assert(may_be_defined(tools[keys[i]], defined_name(list[i]), list[i]));
        assert(may_be_named(tools[keys[i]], names[i]) && may_be_named(tools[keys[i]], keys[i]));
    }
    assert(names =~= keys);
    assert forall|i: int, j: int| 0 <= i < j < names.len() implies text_lt(
        #[trigger] names[i],
        #[trigger] names[j],
    ) by {
        assert(!text_lt(defined_name(list[j]), defined_name(list[i])));
        assert(keys[i] != keys[j]);
        text_order_is_total(names[i], names[j]);
    }
    assert(is_sorted_list(names, tools.dom()));
    sorted_list_is_unique(tools.dom(), names, sorted_list(tools.dom()));
}

/// A tool in a box is the tool: boxes let a registry hold tools of different
/// types.
impl<T: Tool + ?Sized> Tool for Box<T> {
    fn name(&self) -> (name: &str)
        ensures
            call_ensures(T::name, (&**self,), name),
    {
        (**self).name()
    }

    fn description(&self) -> (description: &str)
        ensures
            call_ensures(T::description, (&**self,), description),
    {
        (**self).description()
    }

    fn schema(&self) -> (schema: Json)
        ensures
            call_ensures(T::schema, (&**self,), schema),
    {
        (**self).schema()
    }

    fn execute(&self, input: Json) -> (result: Result<String, ToolError<String>>)
        ensures
            call_ensures(T::execute, (&**self, input), result),
    {
        (**self).execute(input)
    }
}

// ---------------------------------------------------------------------------
// The registry
// ---------------------------------------------------------------------------
/// The tools, found by their names.
pub struct ToolRegistry<T> {
    tools: Vec<(String, T)>,
}

/// The names under which tools are registered.
pub open spec fn entry_names<T>(tools: Seq<(String, T)>) -> Seq<Seq<char>> {
    Seq::new(tools.len(), |i: int| tools[i].0@)
}

/// The place of a name.
pub open spec fn entry_place<T>(tools: Seq<(String, T)>, name: Seq<char>) -> int {
    choose|i: int| 0 <= i < tools.len() && #[trigger] tools[i].0@ == name
}

impl<T: Tool> ToolRegistry<T> {
    /// The tools by name.
    pub closed spec fn view(&self) -> Map<Seq<char>, T> {
        Map::new(
            |name: Seq<char>| entry_names(self.tools@).contains(name),
            |name: Seq<char>| self.tools@[entry_place(self.tools@, name)].1,
        )
    }

    /// No name is given twice.
    pub closed spec fn names_differ(&self) -> bool {
        entry_names(self.tools@).no_duplicates()
    }

    /// No two tools are registered under the same name, and each is registered
    /// under a name that it gave.
    pub open spec fn well_formed(&self) -> bool {
        &&& self.names_differ()
        &&& forall|name: Seq<char>| #[trigger]
            self@.dom().contains(name) ==> may_be_named(self@[name], name)
    }

    proof fn lemma_entry(&self, i: int)
        requires
            self.names_differ(),
            0 <= i < self.tools.len(),
        ensures
            self@.dom().contains(self.tools@[i].0@),
            self@[self.tools@[i].0@] == self.tools@[i].1,
    {
        let names = entry_names(self.tools@);
        let name = self.tools@[i].0@;
        assert(names[i] == name);
        let k = entry_place(self.tools@, name);
        assert(self.tools@[i].0@ == name);
        assert(self.tools@[k].0@ == name);
        assert(names[k] == names[i]);
        assert(k == i);
    }

    /// A registry without tools.
    pub fn new() -> (registry: ToolRegistry<T>)
        ensures
            registry.well_formed(),
            registry@ == Map::<Seq<char>, T>::empty(),
    {
        let registry: ToolRegistry<T> = ToolRegistry { tools: Vec::new() };
        assert(entry_names(registry.tools@) =~= Seq::<Seq<char>>::empty());
        assert(registry@ =~= Map::<Seq<char>, T>::empty());
        registry
    }

    /// The place of the tool of a name.
    fn place_of(&self, name: &str) -> (place: Option<usize>)
        ensures
            place is Some <==> self@.dom().contains(name@),
            place matches Some(i) ==> i < self.tools.len() && self.tools@[i as int].0@ == name@,
    {
        let mut i: usize = 0;
        while i < self.tools.len()
            invariant
                i <= self.tools.len(),
                forall|k: int| 0 <= k < i ==> (#[trigger] self.tools@[k]).0@ != name@,
            decreases self.tools.len() - i,
        {
            if same_text(self.tools[i].0.as_str(), name) {
                assert(entry_names(self.tools@)[i as int] == name@);
                return Some(i);
            }
            i += 1;
        }
        proof {
            if entry_names(self.tools@).contains(name@) {
                let k = choose|k: int|
                    0 <= k < entry_names(self.tools@).len() && entry_names(self.tools@)[k]
                        == name@;
                assert(self.tools@[k].0@ == name@);
            }
        }
        None
    }

    /// Registers a tool under the name that it gives. A tool that was
    /// registered under the same name before is replaced.
    pub fn register(&mut self, tool: T)
        requires
            old(self).well_formed(),
        ensures
            final(self).well_formed(),
            exists|name: Seq<char>| #[trigger]
                may_be_named(tool, name) && final(self)@ == old(self)@.insert(name, tool),
    {
        let given: &str = tool.name();
        assert(call_ensures(T::name, (&tool,), given));
        let name: String = given.to_owned();
        let ghost called = name@;
        assert(may_be_named(tool, called));
        let ghost before = self.tools@;
        let ghost added = tool;
        let ghost mut at: int = 0;
        match self.place_of(name.as_str()) {
            Some(i) => {
                self.tools.set(i, (name, tool));
                proof {
                    at = i as int;
                }
                assert(entry_names(self.tools@) =~= entry_names(before));
            },
            None => {
                self.tools.push((name, tool));
                proof {
                    at = before.len() as int;
                }
                assert(entry_names(self.tools@) =~= entry_names(before).push(called));
            },
        }
        proof {
            let names = entry_names(self.tools@);
            assert(names.no_duplicates());
            assert forall|text: Seq<char>| self@.dom().contains(text) == old(self)@.insert(
                called,
                added,
            ).dom().contains(text) by {
                if entry_names(before).contains(text) {
                    let k = choose|k: int|
                        0 <= k < entry_names(before).len() && entry_names(before)[k] == text;
                    assert(names[k] == text);
                }
                if text == called {
                    let k = if entry_names(before).contains(text) {
                        choose|k: int|
                            0 <= k < entry_names(before).len() && entry_names(before)[k] == text
                    } else {
                        before.len() as int
                    };
                    assert(names[k] == text);
                }
                if names.contains(text) {
                    let k = choose|k: int| 0 <= k < names.len() && names[k] == text;
                    if k < before.len() {
                        assert(entry_names(before)[k] == names[k]);
                    }
                }
            }
            assert forall|text: Seq<char>| #[trigger]
                self@.dom().contains(text) implies self@[text] == old(self)@.insert(
                called,
                added,
            )[text] by {
                let k = choose|k: int| 0 <= k < names.len() && names[k] == text;
                self.lemma_entry(k);
                assert(names[at] == called);
                if text == called {
                    assert(k == at);
                } else {
                    assert(k != at);
                    assert(before[k] == self.tools@[k]);
                    old(self).lemma_entry(k);
                }
            }
            assert(self@ =~= old(self)@.insert(called, added));
            assert forall|text: Seq<char>| #[trigger] self@.dom().contains(text) implies
                may_be_named(self@[text], text) by {
                if text != called {
                    assert(old(self)@.dom().contains(text));
                }
            }
        }
    }

    /// The tool of a name.
    pub fn lookup(&self, name: &str) -> (tool: Option<&T>)
        requires
            self.well_formed(),
        ensures
            tool is Some <==> self@.dom().contains(name@),
            tool matches Some(tool) ==> *tool == self@[name@],
    {
        match self.place_of(name) {
            Some(i) => {
                proof {
                    self.lemma_entry(i as int);
                }
                Some(&self.tools[i].1)
            },
            None => None,
        }
    }

    /// Runs the tool of a name. It fails where there is none.
    pub fn execute(&self, name: &str, input: Json) -> (result: Result<String, ToolError<String>>)
        requires
            self.well_formed(),
        ensures
            self@.dom().contains(name@) ==> may_give(self@[name@], input, result),
            !self@.dom().contains(name@) ==> result_view(result) == Err::<Seq<char>, _>(
                ToolError::Unknown(name@),
            ),
    {
        match self.lookup(name) {
            Some(tool) => tool.execute(input),
            None => Err(ToolError::Unknown(name.to_owned())),
        }
    }

    /// How many tools there are.
    pub fn len(&self) -> (len: usize)
        requires
            self.well_formed(),
        ensures
            self@.dom().finite(),
            len == self@.dom().len(),
    {
        proof {
            let names = entry_names(self.tools@);
            names.unique_seq_to_set();
            assert(self@.dom() =~= names.to_set());
        }
        self.tools.len()
    }

    /// Whether there is no tool.
    pub fn is_empty(&self) -> (empty: bool)
        ensures
            empty == (self@ == Map::<Seq<char>, T>::empty()),
    {
        proof {
            let names = entry_names(self.tools@);
            if names.len() == 0 {
                assert(self@ =~= Map::<Seq<char>, T>::empty());
            } else {
                assert(names.contains(names[0]));
                assert(self@.dom().contains(names[0]));
            }
        }
        self.tools.len() == 0
    }

    /// The names of the tools, in order.
    pub fn names(&self) -> (names: Vec<String>)
        ensures
            texts(names@) == sorted_list(self@.dom()),
            is_sorted_list(texts(names@), self@.dom()),
    {
        let mut list: Vec<String> = Vec::new();
        let mut i: usize = 0;
        while i < self.tools.len()
            invariant
                i <= self.tools.len(),
                list.len() == i,
                forall|k: int| 0 <= k < i ==> #[trigger] list@[k]@ == self.tools@[k].0@,
            decreases self.tools.len() - i,
        {
            list.push(self.tools[i].0.clone());
            i += 1;
        }
        assert(texts(list@) =~= entry_names(self.tools@));
        assert(self@.dom() =~= texts(list@).to_set());
        sorted_unique(&list)
    }

    /// The definitions of the tools in the order of the names in them. Where
    /// the tools have constant names, these are the names of the registry.
    pub fn get_schemas(&self) -> (schemas: Vec<Json>)
        requires
            self.well_formed(),
        ensures
            exists|keys: Seq<Seq<char>>| #[trigger] defines(self@, keys, values(schemas@)),
            self@.dom().finite(),
            schemas.len() == self@.dom().len(),
            (forall|key: Seq<char>| #[trigger]
                self@.dom().contains(key) ==> has_constant_name(self@[key])) ==> defined_names(
                values(schemas@),
            ) == sorted_list(self@.dom()) && is_sorted_list(
                defined_names(values(schemas@)),
                self@.dom(),
            ),
    {
        let mut list: Vec<Json> = Vec::new();
        let mut names: Vec<String> = Vec::new();
        let mut ranks: Vec<u8> = Vec::new();
        let mut i: usize = 0;
        while i < self.tools.len()
            invariant
                i <= self.tools.len(),
                list.len() == i,
                names.len() == i,
                ranks.len() == i,
                forall|k: int| 0 <= k < i ==> ranks@[k] == 0,
                forall|k: int|
                    0 <= k < i ==> may_be_defined(
                        self.tools@[k].1,
                        names@[k]@,
                        (#[trigger] list@[k]).view(),
                    ) && defined_name(list@[k].view()) == names@[k]@,
            decreases self.tools.len() - i,
        {
            let tool: &T = &self.tools[i].1;
            let name: &str = tool.name();
            assert(call_ensures(T::name, (tool,), name));
            list.push(definition_json(tool, name));
            names.push(name.to_owned());
            ranks.push(0);
            i += 1;
        }
        let order: Vec<usize> = stable_order(&ranks, &names);
        let ghost sorted = places(order@);
        let ghost keys = Seq::new(sorted.len(), |x: int| self.tools@[sorted[x]].0@);
        let mut schemas: Vec<Json> = Vec::new();
        let mut k: usize = 0;
        while k < order.len()
            invariant
                k <= order.len(),
                order.len() == list.len(),
                sorted == places(order@),
                is_stable_order(ranks@, texts(names@), sorted),
                names.len() == list.len(),
                schemas.len() == k,
                forall|x: int|
                    0 <= x < k ==> (#[trigger] schemas@[x]).view() == list@[sorted[x]].view(),
            decreases order.len() - k,
        {
            assert(sorted[k as int] == order@[k as int]);
            schemas.push(list[order[k]].clone());
            k += 1;
        }
        proof {
            self.lemma_defines(ranks@, names@, list@, sorted, keys, values(schemas@));
            let all = entry_names(self.tools@);
            all.unique_seq_to_set();
            assert(self@.dom() =~= all.to_set());
            if forall|key: Seq<char>| #[trigger]
                self@.dom().contains(key) ==> has_constant_name(self@[key]) {
                definitions_go_by_name(self@, keys, values(schemas@));
            }
        }
        schemas
    }

    /// The definitions in their order define the tools.
    proof fn lemma_defines(
        &self,
        ranks: Seq<u8>,
        names: Seq<String>,
        list: Seq<Json>,
        sorted: Seq<int>,
        keys: Seq<Seq<char>>,
        schemas: Seq<JsonView>,
    )
        requires
            self.well_formed(),
            names.len() == self.tools.len(),
            list.len() == names.len(),
            ranks.len() == names.len(),
            forall|k: int| 0 <= k < ranks.len() ==> ranks[k] == 0,
            forall|k: int|
                0 <= k < list.len() ==> may_be_defined(
                    self.tools@[k].1,
                    names[k]@,
                    (#[trigger] list[k]).view(),
                ) && defined_name(list[k].view()) == names[k]@,
            is_stable_order(ranks, texts(names), sorted),
            keys == Seq::new(sorted.len(), |x: int| self.tools@[sorted[x]].0@),
            schemas.len() == sorted.len(),
            forall|x: int|
                0 <= x < schemas.len() ==> #[trigger] schemas[x] == list[sorted[x]].view(),
        ensures
            defines(self@, keys, schemas),
    {
        let all = entry_names(self.tools@);
        assert forall|x: int, y: int|
            0 <= x < keys.len() && 0 <= y < keys.len() && x != y implies keys[x] != keys[y] by {
            let (a, b) = if x < y {
                (x, y)
            } else {
                (y, x)
            };
            assert(crate::order::goes_before(ranks, texts(names), sorted[a], sorted[b]));
            text_order_is_total(texts(names)[sorted[a]], texts(names)[sorted[b]]);
            assert(sorted[a] != sorted[b]);
            assert(all[sorted[a]] != all[sorted[b]]);
        }
        assert forall|key: Seq<char>| #[trigger] self@.dom().contains(key) <==> keys.contains(key) by {
            if self@.dom().contains(key) {
                let k = choose|k: int| 0 <= k < all.len() && all[k] == key;
                assert(sorted.contains(k));
                let x = choose|x: int| 0 <= x < sorted.len() && sorted[x] == k;
                assert(keys[x] == key);
            }
            if keys.contains(key) {
                let x = choose|x: int| 0 <= x < keys.len() && keys[x] == key;
                assert(all[sorted[x]] == key);
            }
        }
        assert forall|x: int| 0 <= x < schemas.len() implies may_be_defined(
            self@[keys[x]],
            defined_name(schemas[x]),
            #[trigger] schemas[x],
        ) by {
            self.lemma_entry(sorted[x]);
            assert(schemas[x] == list[sorted[x]].view());
        }
        assert forall|x: int, y: int| 0 <= x < y < schemas.len() implies !text_lt(
            defined_name(#[trigger] schemas[y]),
            defined_name(#[trigger] schemas[x]),
        ) by {
            let a = texts(names)[sorted[x]];
            let b = texts(names)[sorted[y]];
            assert(crate::order::goes_before(ranks, texts(names), sorted[x], sorted[y]));
            assert(defined_name(schemas[x]) == a && defined_name(schemas[y]) == b);
            text_order_is_total(a, b);
        }
    }
}

impl<T: Tool> Default for ToolRegistry<T> {
    fn default() -> (registry: ToolRegistry<T>)
        ensures
            registry.well_formed(),
            registry@ == Map::<Seq<char>, T>::empty(),
    {
        ToolRegistry::new()
    }
}

/// Builds the definition of a tool that gave this name.
fn definition_json<T: Tool>(tool: &T, name: &str) -> (value: Json)
    requires
        may_be_named(*tool, name@),
    ensures
        may_be_defined(*tool, name@, value@),
        defined_name(value@) == name@,
{
    let description: &str = tool.description();
    assert(call_ensures(T::description, (tool,), description));
    let schema: Json = tool.schema();
    assert(call_ensures(T::schema, (tool,), schema));
    let ghost shape = schema@;
    let mut function: Vec<(String, Json)> = Vec::new();
    put(&mut function, "name", Json::text(name));
    put(&mut function, "description", Json::text(description));
    put(&mut function, "parameters", schema);
    let mut entries: Vec<(String, Json)> = Vec::new();
    put(&mut entries, "type", Json::text("function"));
    put(&mut entries, "function", Json::Object(function));
    let value: Json = Json::Object(entries);
    proof {
        assert(value@ == definition(name@, description@, shape));
        lemma_defined_name(name@, description@, shape);
    }
    value
}

// ---------------------------------------------------------------------------
// The echo tool
// ---------------------------------------------------------------------------
/// A tool that gives back what it is given, to try the tools out.
pub struct EchoTool;

/// The schema of the echo tool: an object with one text.
pub open spec fn echo_schema() -> JsonView {
    JsonView::Object(
        map![
            "type"@ => JsonView::Text("object"@),
            "properties"@ => JsonView::Object(
                map![
                    "text"@ => JsonView::Object(
                        map![
                            "type"@ => JsonView::Text("string"@),
                            "description"@ => JsonView::Text("The text to echo back"@),
                        ],
                    ),
                ],
            ),
            "required"@ => JsonView::Array(seq![JsonView::Text("text"@)]),
        ],
    )
}

/// What the echo tool gives for an input: the text comes back, and without one
/// the tool fails.
pub open spec fn echo_result(input: JsonView) -> Result<Seq<char>, ToolError<Seq<char>>> {
    match input.text_at("text"@) {
        Some(text) => Ok(text),
        None => Err(ToolError::Failed("echo_tool: missing required field 'text'"@)),
    }
}

impl Tool for EchoTool {
    fn name(&self) -> (name: &str)
        ensures
            name@ == "echo_tool"@,
    {
        "echo_tool"
    }

    fn description(&self) -> (description: &str)
        ensures
            description@
                == "Echo back the provided text. Use for testing the tool execution pipeline."@,
    {
        "Echo back the provided text. Use for testing the tool execution pipeline."
    }

    fn schema(&self) -> (schema: Json)
        ensures
            schema@ == echo_schema(),
    {
        let mut text: Vec<(String, Json)> = Vec::new();
        put(&mut text, "type", Json::text("string"));
        put(&mut text, "description", Json::text("The text to echo back"));
        let mut properties: Vec<(String, Json)> = Vec::new();
        put(&mut properties, "text", Json::Object(text));
        let mut required: Vec<Json> = Vec::new();
        required.push(Json::text("text"));
        assert(values(required@) =~= seq![JsonView::Text("text"@)]);
        let mut entries: Vec<(String, Json)> = Vec::new();
        put(&mut entries, "type", Json::text("object"));
        put(&mut entries, "properties", Json::Object(properties));
        put(&mut entries, "required", Json::Array(required));
        Json::Object(entries)
    }

    fn execute(&self, input: Json) -> (result: Result<String, ToolError<String>>)
        ensures
            result_view(result) == echo_result(input@),
    {
        match input.str_at("text") {
            Some(text) => Ok(text.to_owned()),
            None => Err(
                ToolError::Failed("echo_tool: missing required field 'text'".to_owned()),
            ),
        }
    }
}

} // verus!
