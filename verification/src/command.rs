//! What the subcommands share: `key=value` arguments, the text that is sent
//! as the request, and the resolution of a prompt into the final instruction.

pub mod ask;
pub mod exec;
pub mod prompts;

use vstd::prelude::*;
use vstd::std_specs::convert::FromSpecImpl;
use vstd::string::StringExecFns;
use vstd::string::StrSliceExecFns;
use crate::config::{
    merge_values,
    merged,
    values_view,
    Binding,
    Prompt,
    PromptValue,
    PromptView,
};
use crate::error::{Error, ErrorView};
use crate::pattern::{compile, find_spans, pattern_compiles, pattern_rejection, pattern_spans};
use crate::template::{
    char_spans,
    char_spans_of,
    fill,
    filled,
    is_uncontested,
    order_of_placements_is_immaterial,
    placements_view,
    uncontested,
    unplaced,
    unplaced_text_is_unchanged,
    Placements,
    PlacementsView,
};

verus! {

/// One `key=value` argument of the command line.
#[derive(Debug, Clone, PartialEq, Eq, Hash)]
pub struct KeyValue {
    pub key: String,
    pub value: String,
}

impl View for KeyValue {
    type V = Binding;

    open spec fn view(&self) -> Binding {
        (self.key@, self.value@)
    }
}

impl From<KeyValue> for PromptValue {
    fn from(kv: KeyValue) -> (r: PromptValue) {
        PromptValue { name: kv.key, value: kv.value }
    }
}

impl FromSpecImpl<KeyValue> for PromptValue {
    open spec fn obeys_from_spec() -> bool {
        true
    }

    open spec fn from_spec(kv: KeyValue) -> PromptValue {
        PromptValue { name: kv.key, value: kv.value }
    }
}

/// A list of arguments as bindings.
pub open spec fn pairs_of(items: Seq<KeyValue>) -> Seq<Binding> {
    Seq::new(items.len(), |i: int| items[i]@)
}

/// The index of the first `mark` in `text`, or the length of `text` where
/// there is none.
pub open spec fn first_index(text: Seq<char>, mark: char) -> int
    decreases text.len(),
{
    if text.len() == 0 {
        0
    } else if text[0] == mark {
        0
    } else {
        1 + first_index(text.drop_first(), mark)
    }
}

/// An index before which `mark` does not occur, and which is the end or
/// holds `mark`, is the first index of `mark`.
pub proof fn lemma_first_index_is(text: Seq<char>, mark: char, at: int)
    requires
        0 <= at <= text.len(),
        forall|k: int| 0 <= k < at ==> text[k] != mark,
        at < text.len() ==> text[at] == mark,
    ensures
        first_index(text, mark) == at,
    decreases text.len(),
{
    if text.len() > 0 && text[0] != mark {
        let rest = text.drop_first();
        assert forall|k: int| 0 <= k < at - 1 implies rest[k] != mark by {
            assert(rest[k] == text[k + 1]);
        }
        lemma_first_index_is(rest, mark, at - 1);
    }
}

/// The argument that `text` spells: the key before its first `=` and the
/// value behind it. `None` where `text` holds no `=`.
pub open spec fn key_value_of(text: Seq<char>) -> Option<Binding> {
    let at = first_index(text, '=');
    if at < text.len() {
        Some((text.subrange(0, at), text.subrange(at + 1, text.len() as int)))
    } else {
        None
    }
}

/// The complaint about an argument without `=`.
pub open spec fn missing_sign_message(text: Seq<char>) -> Seq<char> {
    "Invalid key=value: no `=` found in `"@ + text + "`"@
}

/// Splits a `key=value` argument at its first `=`.
pub fn parse_key_val(s: &str) -> (r: Result<KeyValue, String>)
    ensures
        match r {
            Ok(kv) => key_value_of(s@) == Some(kv@),
            Err(message) => key_value_of(s@) is None && message@ == missing_sign_message(s@),
        },
{
    let len = s.unicode_len();
    let mut at: usize = 0;
    while at < len && s.get_char(at) != '='
        invariant
            at <= len,
            len == s@.len(),
            forall|k: int| 0 <= k < at ==> s@[k] != '=',
        decreases len - at,
    {
        at += 1;
    }
    proof {
        lemma_first_index_is(s@, '=', at as int);
    }
    if at < len {
        Ok(
            KeyValue {
                key: String::from_str(s.substring_char(0, at)),
                value: String::from_str(s.substring_char(at + 1, len)),
            },
        )
    } else {
        let mut message = String::from_str("Invalid key=value: no `=` found in `");
        message.append(s);
        message.append("`");
        Err(message)
    }
}

/// The pattern that finds the placeholders of `name`: `{name}`, or `{name:`
/// followed by any text without a closing brace and `}`.
pub open spec fn placeholder_pattern(name: Seq<char>) -> Seq<char> {
    "\\{"@ + name + "(:[^}]*)?\\}"@
}

/// The pattern that finds the placeholders of `name`.
pub fn placeholder_regex(name: &str) -> (r: String)
    ensures
        r@ == placeholder_pattern(name@),
{
    let mut pattern = String::from_str("\\{");
    pattern.append(name);
    pattern.append("(:[^}]*)?\\}");
    pattern
}

/// Where each value goes in `content`: for each value in its order, the
/// places that the engine finds for the value's placeholders in `content`
/// itself; or the engine's complaint about the first value whose pattern it
/// rejects.
pub open spec fn located(content: Seq<char>, values: Seq<Binding>) -> Result<
    Seq<PlacementsView>,
    Seq<char>,
>
    decreases values.len(),
{
    if values.len() == 0 {
        Ok(Seq::empty())
    } else {
        match located(content, values.drop_last()) {
            Ok(earlier) => {
                let pattern = placeholder_pattern(values.last().0);
                if pattern_compiles(pattern) {
                    Ok(
                        earlier.push(
                            PlacementsView {
                                value: values.last().1,
                                spans: char_spans_of(content, pattern_spans(pattern, content)),
                            },
                        ),
                    )
                } else {
                    Err(pattern_rejection(pattern))
                }
            },
            Err(message) => Err(message),
        }
    }
}

/// `content` with every placeholder that was found in it replaced by the
/// text of its value. The text that a value brings in is not searched; so a
/// value that spells a placeholder stays as it is. Fails with the engine's
/// complaint about the first value whose pattern it rejects.
pub open spec fn expanded(content: Seq<char>, values: Seq<Binding>) -> Result<
    Seq<char>,
    Seq<char>,
> {
    match located(content, values) {
        Ok(placements) => Ok(filled(content, placements)),
        Err(message) => Err(message),
    }
}

/// The final instruction: the stored prompt's content with the merged values
/// filled in where a name was given and a prompt of that name is stored, and
/// the fallback otherwise.
pub open spec fn resolved(
    name: Option<Seq<char>>,
    stored: Option<PromptView>,
    overrides: Seq<Binding>,
    fallback: Seq<char>,
) -> Result<Seq<char>, ErrorView> {
    match (name, stored) {
        (Some(_), Some(prompt)) => match expanded(
            prompt.content,
            merged(prompt.values, overrides),
        ) {
            Ok(text) => Ok(text),
            Err(message) => Err(ErrorView::Regex { message }),
        },
        _ => Ok(fallback),
    }
}

/// No placeholder of any of the values is left in `text`: every value's
/// pattern is accepted, and none has a place in `text`.
pub open spec fn settled(text: Seq<char>, values: Seq<Binding>) -> bool {
    match located(text, values) {
        Ok(placements) => unplaced(placements),
        Err(_) => false,
    }
}

/// Every value's pattern is accepted by the engine.
pub open spec fn all_compile(values: Seq<Binding>) -> bool {
    forall|i: int|
        0 <= i < values.len() ==> pattern_compiles(placeholder_pattern(#[trigger] values[i].0))
}

/// The places are found exactly where every value's pattern is accepted,
/// whatever the text; and then there is one entry for each value.
pub proof fn lemma_located_ok(content: Seq<char>, values: Seq<Binding>)
    ensures
        located(content, values) is Ok <==> all_compile(values),
        located(content, values) matches Ok(placements) ==> placements.len() == values.len(),
    decreases values.len(),
{
    if values.len() > 0 {
        let earlier = values.drop_last();
        lemma_located_ok(content, earlier);
        if all_compile(values) {
            assert forall|i: int| 0 <= i < earlier.len() implies pattern_compiles(
                placeholder_pattern(#[trigger] earlier[i].0),
            ) by {
                assert(earlier[i] == values[i]);
            }
            assert(values.last() == values[values.len() - 1]);
        }
        if located(content, values) is Ok {
            assert forall|i: int| 0 <= i < values.len() implies pattern_compiles(
                placeholder_pattern(#[trigger] values[i].0),
            ) by {
                if i < earlier.len() {
                    assert(earlier[i] == values[i]);
                }
            }
        }
    }
}

/// Once a value's pattern was rejected, the values behind it change nothing.
pub proof fn lemma_located_stays_failed(content: Seq<char>, values: Seq<Binding>, upto: int)
    requires
        0 <= upto <= values.len(),
        located(content, values.take(upto)) is Err,
    ensures
        located(content, values) == located(content, values.take(upto)),
    decreases values.len() - upto,
{
    if upto < values.len() {
        let next = values.take(upto + 1);
        assert(next.drop_last() =~= values.take(upto));
        lemma_located_stays_failed(content, values, upto + 1);
    } else {
        assert(values.take(upto) =~= values);
    }
}

/// The places of one value in `content`.
pub open spec fn placements_of(content: Seq<char>, value: Binding) -> PlacementsView {
    PlacementsView {
        value: value.1,
        spans: char_spans_of(content, pattern_spans(placeholder_pattern(value.0), content)),
    }
}

/// Where the places are found, the entry for each value is that value's
/// places.
pub proof fn lemma_located_each(content: Seq<char>, values: Seq<Binding>, i: int)
    requires
        located(content, values) is Ok,
        0 <= i < values.len(),
    ensures
        located(content, values)->Ok_0.len() == values.len(),
        located(content, values)->Ok_0[i] == placements_of(content, values[i]),
    decreases values.len(),
{
    lemma_located_ok(content, values);
    let earlier = values.drop_last();
    lemma_located_ok(content, earlier);
    if i < values.len() - 1 {
        lemma_located_each(content, earlier, i);
        assert(earlier[i] == values[i]);
    }
}

/// Each of the two lists holds every value of the other.
pub open spec fn same_values(first: Seq<Binding>, second: Seq<Binding>) -> bool {
    &&& forall|i: int| 0 <= i < first.len() ==> second.contains(#[trigger] first[i])
    &&& forall|j: int| 0 <= j < second.len() ==> first.contains(#[trigger] second[j])
}

/// No index of `content` is the start of a placeholder for two of the
/// values.
pub open spec fn unambiguous(content: Seq<char>, values: Seq<Binding>) -> bool {
    located(content, values) matches Ok(placements) && uncontested(
        placements,
        content.len() as int,
    )
}

/// The result does not depend on the order of the values: two lists of the
/// same values, whose placeholders never start at one index of the content,
/// give the same text.
pub proof fn order_of_values_is_immaterial(
    content: Seq<char>,
    first: Seq<Binding>,
    second: Seq<Binding>,
)
    requires
        same_values(first, second),
        unambiguous(content, first),
        unambiguous(content, second),
    ensures
        expanded(content, first) == expanded(content, second),
{
    let one = located(content, first)->Ok_0;
    let other = located(content, second)->Ok_0;
    lemma_located_ok(content, first);
    lemma_located_ok(content, second);
    assert forall|i: int| 0 <= i < one.len() implies other.contains(#[trigger] one[i]) by {
        lemma_located_each(content, first, i);
        assert(second.contains(first[i]));
        let j = choose|j: int| 0 <= j < second.len() && second[j] == first[i];
        lemma_located_each(content, second, j);
        assert(other[j] == one[i]);
    }
    assert forall|j: int| 0 <= j < other.len() implies one.contains(#[trigger] other[j]) by {
        lemma_located_each(content, second, j);
        assert(first.contains(second[j]));
        let i = choose|i: int| 0 <= i < first.len() && first[i] == second[j];
        lemma_located_each(content, first, i);
        assert(one[i] == other[j]);
    }
    order_of_placements_is_immaterial(content, one, other, 0);
}

/// Substitution is idempotent once nothing is left to replace: where the
/// result of substituting holds no placeholder of the values any more,
/// substituting again gives the same text.
pub proof fn substitution_is_idempotent(content: Seq<char>, values: Seq<Binding>)
    requires
        expanded(content, values) is Ok,
        settled(expanded(content, values)->Ok_0, values),
    ensures
        expanded(expanded(content, values)->Ok_0, values) == expanded(content, values),
{
    let once = expanded(content, values)->Ok_0;
    unplaced_text_is_unchanged(once, located(once, values)->Ok_0, 0);
    assert(once.skip(0) =~= once);
}

/// Finds where each value goes in `content`, and stops at the first value
/// whose pattern the engine rejects.
pub fn locate(content: &str, values: &Vec<PromptValue>) -> (r: Result<Vec<Placements>, Error>)
    ensures
        match r {
            Ok(placements) => located(content@, values_view(values@)) == Ok::<
                Seq<PlacementsView>,
                Seq<char>,
            >(placements_view(placements@)),
            Err(error) => located(content@, values_view(values@)) is Err && error@ == (
            ErrorView::Regex { message: located(content@, values_view(values@))->Err_0 }),
        },
{
    let ghost all = values_view(values@);
    let mut placements: Vec<Placements> = Vec::new();
    let mut done: usize = 0;
    assert(all.take(0) =~= Seq::<Binding>::empty());
    assert(placements_view(placements@) =~= Seq::<PlacementsView>::empty());
    while done < values.len()
        invariant
            done <= values.len(),
            all == values_view(values@),
            located(content@, all.take(done as int)) == Ok::<Seq<PlacementsView>, Seq<char>>(
                placements_view(placements@),
            ),
        decreases values.len() - done,
    {
        proof {
            let upto = all.take(done + 1);
            assert(upto.drop_last() =~= all.take(done as int));
            assert(upto.last() == values[done as int]@);
        }
        let ghost before = placements_view(placements@);
        let pattern = placeholder_regex(values[done].name.as_str());
        match compile(pattern.as_str()) {
            Ok(re) => {
                let found = find_spans(&re, content);
                let spans = char_spans(content, &found);
                placements.push(Placements { value: values[done].value.clone(), spans });
                assert(placements_view(placements@) =~= before.push(
                    PlacementsView {
                        value: values[done as int].value@,
                        spans: char_spans_of(
                            content@,
                            pattern_spans(placeholder_pattern(values[done as int].name@), content@),
                        ),
                    },
                ));
            },
            Err(message) => {
                proof {
                    lemma_located_stays_failed(content@, all, done + 1);
                }
                return Err(Error::Regex { message });
            },
        }
        done += 1;
    }
    assert(all.take(done as int) =~= all);
    Ok(placements)
}

/// Whether none of the placements has a span.
pub fn has_no_place(placements: &Vec<Placements>) -> (r: bool)
    ensures
        r == unplaced(placements_view(placements@)),
{
    let mut next: usize = 0;
    while next < placements.len()
        invariant
            next <= placements.len(),
            forall|i: int| 0 <= i < next ==> (#[trigger] placements[i]).spans@.len() == 0,
        decreases placements.len() - next,
    {
        if placements[next].spans.len() != 0 {
            assert(placements_view(placements@)[next as int].spans.len() != 0);
            return false;
        }
        next += 1;
    }
    assert forall|i: int| 0 <= i < placements.len() implies (#[trigger] placements_view(
        placements@,
    )[i]).spans.len() == 0 by {
        assert(placements[i].spans@.len() == 0);
    }
    true
}

/// Says whether the values are unambiguous in `content`: whether no index of
/// it is the start of a placeholder for two of them. Where that is so, the
/// values give the same text in every order in which they are unambiguous.
/// Fails with the first value whose pattern the engine rejects.
pub fn is_unambiguous(content: &str, values: &Vec<PromptValue>) -> (r: Result<bool, Error>)
    ensures
        match r {
            Ok(clear) => {
                &&& located(content@, values_view(values@)) is Ok
                &&& clear == unambiguous(content@, values_view(values@))
                &&& clear ==> forall|other: Seq<Binding>|
                    same_values(values_view(values@), other) && #[trigger] unambiguous(
                        content@,
                        other,
                    ) ==> expanded(content@, other) == expanded(content@, values_view(values@))
            },
            Err(error) => located(content@, values_view(values@)) is Err && error@ == (
            ErrorView::Regex { message: located(content@, values_view(values@))->Err_0 }),
        },
{
    match locate(content, values) {
        Ok(placements) => {
            let clear = is_uncontested(&placements, content.unicode_len());
            proof {
                if clear {
                    assert forall|other: Seq<Binding>|
                        same_values(values_view(values@), other) && #[trigger] unambiguous(
                            content@,
                            other,
                        ) implies expanded(content@, other) == expanded(
                        content@,
                        values_view(values@),
                    ) by {
                        order_of_values_is_immaterial(content@, values_view(values@), other);
                    }
                }
            }
            Ok(clear)
        },
        Err(error) => Err(error),
    }
}

/// Replaces every placeholder of the values that is found in `content` by
/// the value's text. What a value brings in is not searched again. Fails
/// with the first value whose pattern the engine rejects.
pub fn substitute(content: &str, values: &Vec<PromptValue>) -> (r: Result<String, Error>)
    ensures
        match r {
            Ok(text) => expanded(content@, values_view(values@)) == Ok::<Seq<char>, Seq<char>>(
                text@,
            ),
            Err(error) => expanded(content@, values_view(values@)) is Err && error@ == (
            ErrorView::Regex { message: expanded(content@, values_view(values@))->Err_0 }),
        },
{
    match locate(content, values) {
        Ok(placements) => Ok(fill(content, &placements)),
        Err(error) => Err(error),
    }
}

/// Substitutes as [`substitute`] does, and says whether the result is
/// settled: whether no placeholder of the values is left in it. Where it is,
/// substituting again gives the same text.
pub fn substitute_settled(content: &str, values: &Vec<PromptValue>) -> (r: Result<
    (String, bool),
    Error,
>)
    ensures
        match r {
            Ok(done) => {
                &&& expanded(content@, values_view(values@)) == Ok::<Seq<char>, Seq<char>>(
                    done.0@,
                )
                &&& done.1 == settled(done.0@, values_view(values@))
                &&& done.1 ==> expanded(done.0@, values_view(values@)) == Ok::<
                    Seq<char>,
                    Seq<char>,
                >(done.0@)
            },
            Err(error) => expanded(content@, values_view(values@)) is Err && error@ == (
            ErrorView::Regex { message: expanded(content@, values_view(values@))->Err_0 }),
        },
{
    let text = match substitute(content, values) {
        Ok(text) => text,
        Err(error) => {
            return Err(error);
        },
    };
    proof {
        lemma_located_ok(content@, values_view(values@));
        lemma_located_ok(text@, values_view(values@));
    }
    match locate(text.as_str(), values) {
        Ok(placements) => {
            let settled = has_no_place(&placements);
            proof {
                if settled {
                    substitution_is_idempotent(content@, values_view(values@));
                }
            }
            Ok((text, settled))
        },
        Err(error) => Err(error),
    }
}

/// The overrides as prompt values.
pub fn overrides_of(values: &Vec<KeyValue>) -> (r: Vec<PromptValue>)
    ensures
        values_view(r@) == pairs_of(values@),
{
    let mut overrides: Vec<PromptValue> = Vec::new();
    let mut done: usize = 0;
    while done < values.len()
        invariant
            done <= values.len(),
            overrides.len() == done,
            forall|k: int| 0 <= k < done ==> overrides[k]@ == values[k]@,
        decreases values.len() - done,
    {
        overrides.push(PromptValue::new(values[done].key.as_str(), values[done].value.as_str()));
        done += 1;
    }
    assert(values_view(overrides@) =~= pairs_of(values@));
    overrides
}

/// Resolves a prompt into the final instruction. `stored` is the prompt that
/// the store holds under `name`, if it holds one. Without a name, or without
/// a stored prompt of that name, the result is `default_prompt` as it stands.
/// Otherwise the stored values are overlaid with `values`, and every
/// placeholder of a merged value that is found in the prompt's content is
/// replaced by the value's text; what a value brings in is not searched
/// again. The one failure is a placeholder pattern that the
/// regular-expression engine rejects.
pub fn parse_prompt(
    name: Option<String>,
    stored: Option<Prompt>,
    values: Vec<KeyValue>,
    default_prompt: &str,
) -> (r: Result<String, Error>)
    ensures
        name is None || stored is None ==> (r matches Ok(text) && text@ == default_prompt@),
        match r {
            Ok(text) => resolved(
                name_view(name),
                prompt_view(stored),
                pairs_of(values@),
                default_prompt@,
            ) == Ok::<Seq<char>, ErrorView>(text@),
            Err(error) => resolved(
                name_view(name),
                prompt_view(stored),
                pairs_of(values@),
                default_prompt@,
            ) == Err::<Seq<char>, ErrorView>(error@),
        },
{
    if name.is_none() {
        return Ok(String::from_str(default_prompt));
    }
    match stored {
        None => Ok(String::from_str(default_prompt)),
        Some(prompt) => {
            let overrides = overrides_of(&values);
            let merged_values = merge_values(&prompt.values, &overrides);
            substitute(prompt.content.as_str(), &merged_values)
        },
    }
}

/// An optional name as a character sequence.
pub open spec fn name_view(name: Option<String>) -> Option<Seq<char>> {
    match name {
        Some(name) => Some(name@),
        None => None,
    }
}

/// An optional prompt as character sequences.
pub open spec fn prompt_view(prompt: Option<Prompt>) -> Option<PromptView> {
    match prompt {
        Some(prompt) => Some(prompt@),
        None => None,
    }
}

/// `text` without its leading and trailing whitespace, as `str::trim` gives
/// it.
pub uninterp spec fn trimmed(text: Seq<char>) -> Seq<char>;

/// Calls `str::trim`. Trusted: the result is the text that `trimmed` names.
#[verifier::external_body]
fn trim(text: &str) -> (r: &str)
    ensures
        r@ == trimmed(text@),
{
    text.trim()
}

/// The text that is sent as the request: what was piped in, where that holds
/// more than whitespace, followed by the input argument.
pub open spec fn request_text(piped: Option<Seq<char>>, input: Seq<char>) -> Seq<char> {
    match piped {
        Some(text) => if trimmed(text).len() == 0 {
            input
        } else {
            text + input
        },
        None => input,
    }
}

/// The piped text, unless it is absent or `blank`, followed by the input
/// argument.
pub open spec fn with_piped_text(piped: Option<Seq<char>>, blank: bool, input: Seq<char>) -> Seq<
    char,
> {
    match piped {
        Some(text) => if blank {
            input
        } else {
            text + input
        },
        None => input,
    }
}

/// An optional text as a character sequence.
pub open spec fn text_view(text: Option<&str>) -> Option<Seq<char>> {
    match text {
        Some(text) => Some(text@),
        None => None,
    }
}

/// Puts the piped text before the input argument, unless there is none or it
/// is `blank`.
pub fn with_piped(piped: Option<&str>, blank: bool, input: &str) -> (r: String)
    ensures
        r@ == with_piped_text(text_view(piped), blank, input@),
{
    let mut buffer = String::new();
    if let Some(text) = piped {
        if !blank {
            buffer.append(text);
        }
    }
    buffer.append(input);
    assert(Seq::<char>::empty() + input@ =~= input@);
    buffer
}

/// Puts what was read from a piped standard input, if anything was, before
/// the input argument. Piped text of whitespace alone is left out.
pub fn read_input(piped: Option<&str>, input: &str) -> (r: String)
    ensures
        r@ == request_text(text_view(piped), input@),
{
    let blank = match piped {
        Some(text) => trim(text).is_empty(),
        None => true,
    };
    with_piped(piped, blank, input)
}

/// The arguments that `exec` and `ask` share. The temperature is carried as
/// the bits of its single-precision value.
#[derive(Debug, Clone, PartialEq, Eq)]
pub struct CommonArgs {
    pub model: String,
    pub temperature: u32,
    pub copy: bool,
    pub prompt: Option<String>,
    pub set: Vec<KeyValue>,
    pub input: String,
}

} // verus!
