//! Prompt templates, the values of their placeholders, and where the
//! templates are kept.

use vstd::prelude::*;
use vstd::string::StringExecFns;
use vstd::string::StrSliceExecFns;
use crate::error::{Error, ErrorView};
use crate::pattern::{
    capture_pairs,
    compile,
    pair_view,
    pairs_view,
    pattern_captures,
    pattern_compiles,
    pattern_rejection,
};

verus! {

/// The directory of this tool below the platform's configuration directory.
pub const SHELLDON: &'static str = "shelldon";

/// The directory of the stored prompts below the tool's own directory.
pub const PROMPTS: &'static str = "prompts";

/// The pattern of a placeholder that declares a value: `{name:value}`, both
/// parts made of word characters.
pub const DECLARATION_PATTERN: &'static str = "\\{(\\w+):(\\w+)\\}";

/// A placeholder's name and the text that takes its place.
#[derive(Debug, Clone, PartialEq, Eq)]
pub struct PromptValue {
    pub name: String,
    pub value: String,
}

/// A named template and the values that its placeholders declare.
#[derive(Debug, Clone, PartialEq, Eq)]
pub struct Prompt {
    pub name: String,
    pub content: String,
    pub values: Vec<PromptValue>,
}

/// A name and a value, as character sequences.
pub type Binding = (Seq<char>, Seq<char>);

impl View for PromptValue {
    type V = Binding;

    open spec fn view(&self) -> Binding {
        (self.name@, self.value@)
    }
}

impl PromptValue {
    /// A value of the given name and text.
    pub fn new(name: &str, value: &str) -> (r: PromptValue)
        ensures
            r@ == (name@, value@),
    {
        PromptValue { name: String::from_str(name), value: String::from_str(value) }
    }

    /// A copy of this value.
    pub fn duplicate(&self) -> (r: PromptValue)
        ensures
            r@ == self@,
    {
        PromptValue { name: self.name.clone(), value: self.value.clone() }
    }
}

/// A list of values as bindings.
pub open spec fn values_view(values: Seq<PromptValue>) -> Seq<Binding> {
    Seq::new(values.len(), |i: int| values[i]@)
}

/// A [`Prompt`] as character sequences.
pub struct PromptView {
    pub name: Seq<char>,
    pub content: Seq<char>,
    pub values: Seq<Binding>,
}

impl View for Prompt {
    type V = PromptView;

    open spec fn view(&self) -> PromptView {
        PromptView { name: self.name@, content: self.content@, values: values_view(self.values@) }
    }
}

/// No name is bound twice.
pub open spec fn distinct_names(items: Seq<Binding>) -> bool {
    forall|i: int, j: int| 0 <= i < j < items.len() ==> items[i].0 != items[j].0
}

/// The index of the first binding of `name`, or the length of `items` where
/// there is none.
pub open spec fn position(items: Seq<Binding>, name: Seq<char>) -> int
    decreases items.len(),
{
    if items.len() == 0 {
        0
    } else if items[0].0 == name {
        0
    } else {
        1 + position(items.drop_first(), name)
    }
}

/// The value that `items` gives to `name`: that of its last binding.
pub open spec fn lookup(items: Seq<Binding>, name: Seq<char>) -> Option<Seq<char>>
    decreases items.len(),
{
    if items.len() == 0 {
        None
    } else if items.last().0 == name {
        Some(items.last().1)
    } else {
        lookup(items.drop_last(), name)
    }
}

/// `items` with `binding` in force: it takes the place of the first binding
/// of its name, or comes last where the name is new.
pub open spec fn put(items: Seq<Binding>, binding: Binding) -> Seq<Binding> {
    let at = position(items, binding.0);
    if at < items.len() {
        items.update(at, binding)
    } else {
        items.push(binding)
    }
}

/// `items` after each of `more` was put in force, in order.
pub open spec fn put_all(items: Seq<Binding>, more: Seq<Binding>) -> Seq<Binding>
    decreases more.len(),
{
    if more.len() == 0 {
        items
    } else {
        put(put_all(items, more.drop_last()), more.last())
    }
}

/// The stored values overlaid with the overrides: every name once, in the
/// order of first appearance, with the value of its last binding.
pub open spec fn merged(stored: Seq<Binding>, overrides: Seq<Binding>) -> Seq<Binding> {
    put_all(put_all(Seq::empty(), stored), overrides)
}

/// The values that a template declares, given what the declaration pattern
/// captured in it. A match that lacks either part declares nothing.
pub open spec fn declared(captures: Seq<(Option<Seq<char>>, Option<Seq<char>>)>) -> Seq<Binding>
    decreases captures.len(),
{
    if captures.len() == 0 {
        Seq::empty()
    } else {
        let earlier = declared(captures.drop_last());
        match captures.last() {
            (Some(name), Some(value)) => put(earlier, (name, value)),
            _ => earlier,
        }
    }
}

/// `position` finds the first binding of the name, and only that.
pub proof fn lemma_position(items: Seq<Binding>, name: Seq<char>)
    ensures
        0 <= position(items, name) <= items.len(),
        forall|k: int| 0 <= k < position(items, name) ==> items[k].0 != name,
        position(items, name) < items.len() ==> items[position(items, name)].0 == name,
    decreases items.len(),
{
    if items.len() > 0 && items[0].0 != name {
        let rest = items.drop_first();
        lemma_position(rest, name);
        assert forall|k: int| 0 <= k < position(items, name) implies items[k].0 != name by {
            if k > 0 {
                assert(items[k] == rest[k - 1]);
            }
        }
        if position(items, name) < items.len() {
            assert(items[position(items, name)] == rest[position(rest, name)]);
        }
    }
}

/// An index before which no binding has the name, and which is the end or
/// binds the name, is the name's position.
pub proof fn lemma_position_is(items: Seq<Binding>, name: Seq<char>, at: int)
    requires
        0 <= at <= items.len(),
        forall|k: int| 0 <= k < at ==> items[k].0 != name,
        at < items.len() ==> items[at].0 == name,
    ensures
        position(items, name) == at,
{
    lemma_position(items, name);
    let found = position(items, name);
    if found < at {
        assert(items[found].0 != name);
    } else if at < found {
        assert(items[at].0 != name);
    }
}

/// Putting a binding keeps the names distinct and changes the value of its
/// own name alone.
pub proof fn lemma_put(items: Seq<Binding>, binding: Binding, name: Seq<char>)
    requires
        distinct_names(items),
    ensures
        distinct_names(put(items, binding)),
        lookup(put(items, binding), name) == if name == binding.0 {
            Some(binding.1)
        } else {
            lookup(items, name)
        },
{
    lemma_position(items, binding.0);
    let at = position(items, binding.0);
    let after = put(items, binding);
    assert forall|i: int, j: int| 0 <= i < j < after.len() implies after[i].0 != after[j].0 by {
        if at < items.len() {
            assert(after[i].0 == items[i].0);
            assert(after[j].0 == items[j].0);
        } else if j == items.len() {
            assert(after[i].0 == items[i].0);
        }
    }
    lemma_lookup_distinct(after, name);
    lemma_lookup_distinct(items, name);
    if name == binding.0 {
        let here = if at < items.len() {
            at
        } else {
            items.len() as int
        };
        assert(after[here] == binding);
    } else {
        match lookup(items, name) {
            Some(value) => {
                let k = choose|k: int| 0 <= k < items.len() && items[k] == (name, value);
                assert(after[k] == (name, value));
            },
            None => {
                if lookup(after, name) is Some {
                    let k = choose|k: int|
                        0 <= k < after.len() && after[k] == (name, lookup(after, name)->0);
                    assert(k < items.len());
                    assert(items[k].0 == name);
                }
            },
        }
    }
}

/// Among distinct names, `lookup` gives the value of the one binding of the
/// name, and nothing where the name is not bound.
pub proof fn lemma_lookup_distinct(items: Seq<Binding>, name: Seq<char>)
    requires
        distinct_names(items),
    ensures
        match lookup(items, name) {
            Some(value) => exists|k: int| 0 <= k < items.len() && items[k] == (name, value),
            None => forall|k: int| 0 <= k < items.len() ==> items[k].0 != name,
        },
        forall|k: int|
            0 <= k < items.len() && items[k].0 == name ==> lookup(items, name) == Some(
                items[k].1,
            ),
    decreases items.len(),
{
    if items.len() > 0 {
        let last = items.len() - 1;
        if items.last().0 == name {
            assert(items[last] == (name, items.last().1));
        } else {
            let rest = items.drop_last();
            lemma_lookup_distinct(rest, name);
            match lookup(rest, name) {
                Some(value) => {
                    let k = choose|k: int| 0 <= k < rest.len() && rest[k] == (name, value);
                    assert(items[k] == (name, value));
                },
                None => {
                    assert forall|k: int| 0 <= k < items.len() implies items[k].0 != name by {
                        if k < last {
                            assert(rest[k] == items[k]);
                        }
                    }
                },
            }
            assert forall|k: int| 0 <= k < items.len() && items[k].0 == name implies lookup(
                items,
                name,
            ) == Some(items[k].1) by {
                assert(rest[k] == items[k]);
            }
        }
    }
}

/// Putting several bindings keeps the names distinct, and gives each name the
/// value of its last binding among them, or else the value it had.
pub proof fn lemma_put_all(items: Seq<Binding>, more: Seq<Binding>, name: Seq<char>)
    requires
        distinct_names(items),
    ensures
        distinct_names(put_all(items, more)),
        lookup(put_all(items, more), name) == match lookup(more, name) {
            Some(value) => Some(value),
            None => lookup(items, name),
        },
    decreases more.len(),
{
    if more.len() > 0 {
        lemma_put_all(items, more.drop_last(), name);
        lemma_put(put_all(items, more.drop_last()), more.last(), name);
    }
}

/// The values that a template declares have distinct names.
pub proof fn lemma_declared_distinct(captures: Seq<(Option<Seq<char>>, Option<Seq<char>>)>)
    ensures
        distinct_names(declared(captures)),
    decreases captures.len(),
{
    if captures.len() > 0 {
        lemma_declared_distinct(captures.drop_last());
        match captures.last() {
            (Some(name), Some(value)) => {
                lemma_put(declared(captures.drop_last()), (name, value), name);
            },
            _ => {},
        }
    }
}

/// Every complete declaration in a template has an entry among the declared
/// values: its name is bound.
pub proof fn every_declaration_has_a_value(
    captures: Seq<(Option<Seq<char>>, Option<Seq<char>>)>,
    at: int,
)
    requires
        0 <= at < captures.len(),
        captures[at].0 is Some,
        captures[at].1 is Some,
    ensures
        lookup(declared(captures), captures[at].0->0) is Some,
    decreases captures.len(),
{
    let name = captures[at].0->0;
    let earlier = captures.drop_last();
    lemma_declared_distinct(earlier);
    if at < captures.len() - 1 {
        assert(earlier[at] == captures[at]);
        every_declaration_has_a_value(earlier, at);
    }
    match captures.last() {
        (Some(last_name), Some(last_value)) => {
            lemma_put(declared(earlier), (last_name, last_value), name);
        },
        _ => {},
    }
}

/// Where the stored values and the overrides both bind a name, the merged
/// value is the override; a name that only the stored values bind keeps its
/// stored value; and no name is bound twice.
pub proof fn merge_prefers_overrides(
    stored: Seq<Binding>,
    overrides: Seq<Binding>,
    name: Seq<char>,
)
    ensures
        distinct_names(merged(stored, overrides)),
        lookup(merged(stored, overrides), name) == match lookup(overrides, name) {
            Some(value) => Some(value),
            None => lookup(stored, name),
        },
{
    lemma_put_all(Seq::empty(), stored, name);
    lemma_put_all(put_all(Seq::empty(), stored), overrides, name);
    assert(lookup(Seq::<Binding>::empty(), name) is None);
}

/// Puts `value` in force in `values`.
fn put_value(values: &mut Vec<PromptValue>, value: PromptValue)
    ensures
        values_view(final(values)@) == put(values_view(old(values)@), value@),
{
    let ghost before = values_view(values@);
    let mut at: usize = 0;
    while at < values.len() && values[at].name != value.name
        invariant
            at <= values.len(),
            values_view(values@) == before,
            *values == *old(values),
            forall|k: int| 0 <= k < at ==> before[k].0 != value@.0,
        decreases values.len() - at,
    {
        assert(before[at as int] == values[at as int]@);
        at += 1;
    }
    proof {
        if at < values.len() {
            assert(before[at as int] == values[at as int]@);
        }
        lemma_position_is(before, value@.0, at as int);
    }
    if at < values.len() {
        values.set(at, value);
    } else {
        values.push(value);
    }
    assert(values_view(values@) =~= put(before, value@));
}

/// Puts each of `more` in force in `values`, in order.
fn put_each(values: &mut Vec<PromptValue>, more: &Vec<PromptValue>)
    ensures
        values_view(final(values)@) == put_all(values_view(old(values)@), values_view(more@)),
{
    let ghost before = values_view(values@);
    let ghost all = values_view(more@);
    let mut done: usize = 0;
    while done < more.len()
        invariant
            done <= more.len(),
            all == values_view(more@),
            values_view(values@) == put_all(before, all.take(done as int)),
        decreases more.len() - done,
    {
        let value = more[done].duplicate();
        put_value(values, value);
        proof {
            let upto = all.take(done + 1);
            assert(upto.drop_last() =~= all.take(done as int));
            assert(upto.last() == more[done as int]@);
        }
        done += 1;
    }
    assert(all.take(done as int) =~= all);
}

/// Overlays the stored values with the overrides: every name once, in the
/// order of first appearance, with the value of its last binding.
pub fn merge_values(stored: &Vec<PromptValue>, overrides: &Vec<PromptValue>) -> (r: Vec<
    PromptValue,
>)
    ensures
        values_view(r@) == merged(values_view(stored@), values_view(overrides@)),
        distinct_names(values_view(r@)),
{
    let mut result: Vec<PromptValue> = Vec::new();
    assert(values_view(result@) =~= Seq::<Binding>::empty());
    put_each(&mut result, stored);
    put_each(&mut result, overrides);
    proof {
        merge_prefers_overrides(values_view(stored@), values_view(overrides@), Seq::empty());
    }
    result
}

/// The prompt of the given name and content, given what the declaration
/// pattern captured in the content.
pub fn prompt_from_captures(
    name: &str,
    content: &str,
    captures: &Vec<(Option<String>, Option<String>)>,
) -> (r: Prompt)
    ensures
        r@ == (PromptView {
            name: name@,
            content: content@,
            values: declared(pairs_view(captures@)),
        }),
        distinct_names(r@.values),
{
    let ghost all = pairs_view(captures@);
    let mut values: Vec<PromptValue> = Vec::new();
    assert(values_view(values@) =~= Seq::<Binding>::empty());
    let mut done: usize = 0;
    while done < captures.len()
        invariant
            done <= captures.len(),
            all == pairs_view(captures@),
            values_view(values@) == declared(all.take(done as int)),
        decreases captures.len() - done,
    {
        proof {
            let upto = all.take(done + 1);
            assert(upto.drop_last() =~= all.take(done as int));
            assert(upto.last() == pair_view(captures[done as int]));
        }
        match (&captures[done].0, &captures[done].1) {
            (Some(name), Some(value)) => {
                put_value(&mut values, PromptValue::new(name.as_str(), value.as_str()));
            },
            _ => {},
        }
        done += 1;
    }
    proof {
        assert(all.take(done as int) =~= all);
        lemma_declared_distinct(all);
    }
    Prompt { name: String::from_str(name), content: String::from_str(content), values }
}

/// The prompt that scanning `content` gives, or the engine's complaint about
/// the declaration pattern.
pub open spec fn parsed(name: Seq<char>, content: Seq<char>) -> Result<PromptView, ErrorView> {
    if pattern_compiles(DECLARATION_PATTERN@) {
        Ok(
            PromptView {
                name,
                content,
                values: declared(pattern_captures(DECLARATION_PATTERN@, content)),
            },
        )
    } else {
        Err(ErrorView::Regex { message: pattern_rejection(DECLARATION_PATTERN@) })
    }
}

impl Prompt {
    /// The values are those that the content declares, each name once.
    pub open spec fn well_formed(&self) -> bool {
        &&& parsed(self@.name, self@.content) == Ok::<PromptView, ErrorView>(self@)
        &&& distinct_names(self@.values)
    }
}

/// Scans `content` for placeholders that declare a value and makes the prompt
/// of that name and content: every declared name once, with the value of its
/// last declaration. It fails only where the regular-expression engine
/// rejects the declaration pattern.
pub fn parse_prompt(name: &str, content: &str) -> (r: Result<Prompt, Error>)
    ensures
        match r {
            Ok(prompt) => parsed(name@, content@) == Ok::<PromptView, ErrorView>(prompt@)
                && prompt.well_formed(),
            Err(error) => parsed(name@, content@) == Err::<PromptView, ErrorView>(error@),
        },
{
    match compile(DECLARATION_PATTERN) {
        Ok(re) => {
            let captures = capture_pairs(&re, content);
            Ok(prompt_from_captures(name, content, &captures))
        },
        Err(message) => Err(Error::Regex { message }),
    }
}

/// `child` below the directory `base`: `child` itself where it starts at the
/// root or `base` is empty, else `base` and `child` with one `/` between them
/// unless `base` already ends in one.
pub open spec fn child_path(base: Seq<char>, child: Seq<char>) -> Seq<char> {
    if child.len() > 0 && child[0] == '/' {
        child
    } else if base.len() == 0 || base.last() == '/' {
        base + child
    } else {
        base + seq!['/'] + child
    }
}

/// The file of the prompt `name` in the directory `prompts_dir`.
pub open spec fn prompt_file(prompts_dir: Seq<char>, name: Seq<char>) -> Seq<char> {
    child_path(prompts_dir, name) + ".json"@
}

/// `child` below the directory `base`.
pub fn join(base: &str, child: &str) -> (r: String)
    ensures
        r@ == child_path(base@, child@),
{
    let child_len = child.unicode_len();
    if child_len > 0 && child.get_char(0) == '/' {
        return String::from_str(child);
    }
    let base_len = base.unicode_len();
    let mut path = String::from_str(base);
    if base_len > 0 && base.get_char(base_len - 1) != '/' {
        proof {
            reveal_strlit("/");
            assert("/"@ =~= seq!['/']);
        }
        path.append("/");
    }
    path.append(child);
    path
}

/// Where the tool keeps its files.
#[derive(Debug, Clone, PartialEq, Eq)]
pub struct Config {
    config_dir: String,
    prompts_dir: String,
}

impl Config {
    /// The tool's own directory.
    pub closed spec fn config_dir_view(&self) -> Seq<char> {
        self.config_dir@
    }

    /// The directory of the stored prompts.
    pub closed spec fn prompts_dir_view(&self) -> Seq<char> {
        self.prompts_dir@
    }

    /// The prompts lie directly below the tool's own directory.
    pub open spec fn well_formed(&self) -> bool {
        self.prompts_dir_view() == child_path(self.config_dir_view(), PROMPTS@)
    }

    /// The configuration below `base_dir`, the platform's directory for
    /// configuration files.
    pub fn new(base_dir: &str) -> (r: Config)
        ensures
            r.config_dir_view() == child_path(base_dir@, SHELLDON@),
            r.well_formed(),
    {
        let config_dir = join(base_dir, SHELLDON);
        let prompts_dir = join(config_dir.as_str(), PROMPTS);
        Config { config_dir, prompts_dir }
    }

    /// The tool's own directory.
    pub fn config_dir(&self) -> (r: &str)
        ensures
            r@ == self.config_dir_view(),
    {
        self.config_dir.as_str()
    }

    /// The directory of the stored prompts.
    pub fn prompts_dir(&self) -> (r: &str)
        ensures
            r@ == self.prompts_dir_view(),
    {
        self.prompts_dir.as_str()
    }

    /// The directories that have to be created before the store is used,
    /// outermost first: each of the two that does not exist yet.
    pub fn initialize(&self, config_dir_exists: bool, prompts_dir_exists: bool) -> (r: Vec<String>)
        ensures
            strings_view(r@) == missing_dirs(
                self.config_dir_view(),
                self.prompts_dir_view(),
                config_dir_exists,
                prompts_dir_exists,
            ),
    {
        let mut missing: Vec<String> = Vec::new();
        if !config_dir_exists {
            missing.push(self.config_dir.clone());
        }
        if !prompts_dir_exists {
            missing.push(self.prompts_dir.clone());
        }
        assert(strings_view(missing@) =~= missing_dirs(
            self.config_dir_view(),
            self.prompts_dir_view(),
            config_dir_exists,
            prompts_dir_exists,
        ));
        missing
    }

    /// The file in which the prompt `name` is kept.
    pub fn prompt_path(&self, name: &str) -> (r: String)
        ensures
            r@ == prompt_file(self.prompts_dir_view(), name@),
    {
        let mut path = join(self.prompts_dir.as_str(), name);
        path.append(".json");
        path
    }
}

/// A list of strings as character sequences.
pub open spec fn strings_view(items: Seq<String>) -> Seq<Seq<char>> {
    Seq::new(items.len(), |i: int| items[i]@)
}

/// Of the two directories, those that do not exist, outermost first.
pub open spec fn missing_dirs(
    config_dir: Seq<char>,
    prompts_dir: Seq<char>,
    config_dir_exists: bool,
    prompts_dir_exists: bool,
) -> Seq<Seq<char>> {
    let outer = if config_dir_exists {
        Seq::<Seq<char>>::empty()
    } else {
        seq![config_dir]
    };
    if prompts_dir_exists {
        outer
    } else {
        outer.push(prompts_dir)
    }
}

} // verus!
