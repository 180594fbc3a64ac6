//! The `prompts` subcommand: creating, editing, listing and deleting the
//! stored prompts. The store, the editor and the terminal are outside; what
//! is decided between two dealings with them is decided here.

use vstd::prelude::*;
use vstd::string::StringExecFns;
use crate::config::{parse_prompt, parsed, Binding, Prompt, PromptValue, PromptView};
use crate::error::{Error, ErrorView};

verus! {

/// The arguments of `prompts`.
#[derive(Debug, Clone, PartialEq, Eq)]
pub struct PromptsArgs {
    pub cmd: Command,
}

/// The name of the prompt that a subcommand is about.
#[derive(Debug, Clone, PartialEq, Eq)]
pub struct NameArgs {
    pub name: String,
}

/// What to do with the stored prompts.
#[derive(Debug, Clone, PartialEq, Eq)]
pub enum Command {
    /// Create a new prompt.
    Create,
    /// Edit an existing prompt.
    Edit(NameArgs),
    /// List all prompts.
    List,
    /// Delete an existing prompt.
    Delete(NameArgs),
}

/// What a prompt is looked up, edited or saved for.
#[derive(Debug, Clone, Copy, PartialEq, Eq, Structural)]
pub enum Purpose {
    Create,
    Edit,
    Delete,
}

/// Where the handling of a `prompts` subcommand stands.
#[derive(Debug, Clone, PartialEq, Eq)]
pub enum PromptsState {
    /// The operator is asked for the new prompt's name.
    Naming,
    /// The store is asked for the prompt `name`.
    Looking { purpose: Purpose, name: String },
    /// The content of the prompt `name` is open in the editor.
    Editing { purpose: Purpose, name: String },
    /// The prompt is handed to the store.
    Saving { purpose: Purpose },
    /// The store is asked to drop the prompt.
    Removing,
    /// The store is asked for all prompts.
    Listing,
    /// A new prompt is stored.
    Created,
    /// An existing prompt is stored anew.
    Modified,
    /// The prompt is gone from the store.
    Deleted,
    /// The prompts were shown.
    Listed,
    /// The editor was closed without a text; the store is as it was.
    Unchanged,
    /// The subcommand failed.
    Failed { error: Error },
}

/// What the outside reports back.
#[derive(Debug, Clone, PartialEq, Eq)]
pub enum PromptsEvent {
    /// The operator gave this name.
    Named(String),
    /// The store's answer for one name.
    Loaded(Option<Prompt>),
    /// The editor was closed, with the new text if there is one.
    Edited(Option<String>),
    /// The store took the prompt.
    Saved,
    /// The store dropped the prompt.
    Removed,
    /// All prompts of the store.
    LoadedAll(Vec<Prompt>),
}

/// What the outside is asked to do.
#[derive(Debug, Clone, PartialEq, Eq)]
pub enum PromptsAction {
    /// Ask the operator for the name of the prompt.
    AskName,
    /// Look the prompt `name` up in the store.
    Load { name: String },
    /// Open `content` in the editor.
    OpenEditor { content: String },
    /// Store this prompt under its name.
    Save { prompt: Prompt },
    /// Drop the prompt `name` from the store.
    Remove { name: String },
    /// Read all prompts of the store.
    LoadAll,
    /// Show a table with these rows of name, content and variables.
    Show { rows: Vec<Vec<String>> },
}

/// A [`PromptsState`] over character sequences.
pub enum PromptsModel {
    Naming,
    Looking { purpose: Purpose, name: Seq<char> },
    Editing { purpose: Purpose, name: Seq<char> },
    Saving { purpose: Purpose },
    Removing,
    Listing,
    Created,
    Modified,
    Deleted,
    Listed,
    Unchanged,
    Failed { error: ErrorView },
}

/// A [`PromptsEvent`] over character sequences.
pub enum PromptsEventModel {
    Named(Seq<char>),
    Loaded(Option<PromptView>),
    Edited(Option<Seq<char>>),
    Saved,
    Removed,
    LoadedAll(Seq<PromptView>),
}

/// A [`PromptsAction`] over character sequences.
pub enum PromptsActionModel {
    AskName,
    Load { name: Seq<char> },
    OpenEditor { content: Seq<char> },
    Save { prompt: PromptView },
    Remove { name: Seq<char> },
    LoadAll,
    Show { rows: Seq<Seq<Seq<char>>> },
}

/// A list of prompts over character sequences.
pub open spec fn prompts_view(prompts: Seq<Prompt>) -> Seq<PromptView> {
    Seq::new(prompts.len(), |i: int| prompts[i]@)
}

/// One row of the table over character sequences.
pub open spec fn row_view(row: Vec<String>) -> Seq<Seq<char>> {
    Seq::new(row@.len(), |i: int| row@[i]@)
}

/// The rows of the table over character sequences.
pub open spec fn rows_view(rows: Seq<Vec<String>>) -> Seq<Seq<Seq<char>>> {
    Seq::new(rows.len(), |i: int| row_view(rows[i]))
}

impl View for PromptsState {
    type V = PromptsModel;

    open spec fn view(&self) -> PromptsModel {
        match *self {
            PromptsState::Naming => PromptsModel::Naming,
            PromptsState::Looking { purpose, name } => PromptsModel::Looking {
                purpose,
                name: name@,
            },
            PromptsState::Editing { purpose, name } => PromptsModel::Editing {
                purpose,
                name: name@,
            },
            PromptsState::Saving { purpose } => PromptsModel::Saving { purpose },
            PromptsState::Removing => PromptsModel::Removing,
            PromptsState::Listing => PromptsModel::Listing,
            PromptsState::Created => PromptsModel::Created,
            PromptsState::Modified => PromptsModel::Modified,
            PromptsState::Deleted => PromptsModel::Deleted,
            PromptsState::Listed => PromptsModel::Listed,
            PromptsState::Unchanged => PromptsModel::Unchanged,
            PromptsState::Failed { error } => PromptsModel::Failed { error: error@ },
        }
    }
}

impl View for PromptsEvent {
    type V = PromptsEventModel;

    open spec fn view(&self) -> PromptsEventModel {
        match *self {
            PromptsEvent::Named(name) => PromptsEventModel::Named(name@),
            PromptsEvent::Loaded(Some(prompt)) => PromptsEventModel::Loaded(Some(prompt@)),
            PromptsEvent::Loaded(None) => PromptsEventModel::Loaded(None),
            PromptsEvent::Edited(Some(text)) => PromptsEventModel::Edited(Some(text@)),
            PromptsEvent::Edited(None) => PromptsEventModel::Edited(None),
            PromptsEvent::Saved => PromptsEventModel::Saved,
            PromptsEvent::Removed => PromptsEventModel::Removed,
            PromptsEvent::LoadedAll(prompts) => PromptsEventModel::LoadedAll(
                prompts_view(prompts@),
            ),
        }
    }
}

impl View for PromptsAction {
    type V = PromptsActionModel;

    open spec fn view(&self) -> PromptsActionModel {
        match *self {
            PromptsAction::AskName => PromptsActionModel::AskName,
            PromptsAction::Load { name } => PromptsActionModel::Load { name: name@ },
            PromptsAction::OpenEditor { content } => PromptsActionModel::OpenEditor {
                content: content@,
            },
            PromptsAction::Save { prompt } => PromptsActionModel::Save { prompt: prompt@ },
            PromptsAction::Remove { name } => PromptsActionModel::Remove { name: name@ },
            PromptsAction::LoadAll => PromptsActionModel::LoadAll,
            PromptsAction::Show { rows } => PromptsActionModel::Show { rows: rows_view(rows@) },
        }
    }
}

/// An optional action over character sequences.
pub open spec fn action_view(action: Option<PromptsAction>) -> Option<PromptsActionModel> {
    match action {
        Some(action) => Some(action@),
        None => None,
    }
}

/// A [`Command`] over character sequences.
pub enum CommandModel {
    Create,
    Edit { name: Seq<char> },
    List,
    Delete { name: Seq<char> },
}

impl View for Command {
    type V = CommandModel;

    open spec fn view(&self) -> CommandModel {
        match *self {
            Command::Create => CommandModel::Create,
            Command::Edit(args) => CommandModel::Edit { name: args.name@ },
            Command::List => CommandModel::List,
            Command::Delete(args) => CommandModel::Delete { name: args.name@ },
        }
    }
}

/// The names of the values, separated by a comma and a blank.
pub open spec fn joined_names(values: Seq<Binding>) -> Seq<char>
    decreases values.len(),
{
    if values.len() == 0 {
        Seq::empty()
    } else if values.len() == 1 {
        values[0].0
    } else {
        joined_names(values.drop_last()) + ", "@ + values.last().0
    }
}

/// The row that the table shows for a prompt: its name, its content, and the
/// names of its values.
pub open spec fn row_of(prompt: PromptView) -> Seq<Seq<char>> {
    seq![prompt.name, prompt.content, joined_names(prompt.values)]
}

/// The rows that the table shows for the prompts, in their order.
pub open spec fn rows_of(prompts: Seq<PromptView>) -> Seq<Seq<Seq<char>>> {
    Seq::new(prompts.len(), |i: int| row_of(prompts[i]))
}

/// How a subcommand starts.
pub open spec fn begin_model(cmd: CommandModel) -> (PromptsModel, PromptsActionModel) {
    match cmd {
        CommandModel::Create => (PromptsModel::Naming, PromptsActionModel::AskName),
        CommandModel::Edit { name } => (
            PromptsModel::Looking { purpose: Purpose::Edit, name },
            PromptsActionModel::Load { name },
        ),
        CommandModel::List => (PromptsModel::Listing, PromptsActionModel::LoadAll),
        CommandModel::Delete { name } => (
            PromptsModel::Looking { purpose: Purpose::Delete, name },
            PromptsActionModel::Load { name },
        ),
    }
}

/// What follows once the store has answered for `name`. A new prompt must
/// not exist yet and starts from an empty text; a prompt to edit or delete
/// must exist, and is edited under the name that it carries.
pub open spec fn looked_up(purpose: Purpose, name: Seq<char>, found: Option<PromptView>) -> (
    PromptsModel,
    Option<PromptsActionModel>,
) {
    match (purpose, found) {
        (Purpose::Create, Some(_)) => (
            PromptsModel::Failed { error: ErrorView::PromptAlreadyExists { name } },
            None,
        ),
        (Purpose::Create, None) => (
            PromptsModel::Editing { purpose, name },
            Some(PromptsActionModel::OpenEditor { content: Seq::empty() }),
        ),
        (Purpose::Edit, Some(prompt)) => (
            PromptsModel::Editing { purpose, name: prompt.name },
            Some(PromptsActionModel::OpenEditor { content: prompt.content }),
        ),
        (Purpose::Delete, Some(_)) => (
            PromptsModel::Removing,
            Some(PromptsActionModel::Remove { name }),
        ),
        (_, None) => (PromptsModel::Failed { error: ErrorView::PromptNotFound { name } }, None),
    }
}

/// What follows once the editor was closed: without a text nothing changes;
/// with one, the prompt is derived from it and handed to the store, unless
/// deriving it fails.
pub open spec fn edited(purpose: Purpose, name: Seq<char>, text: Option<Seq<char>>) -> (
    PromptsModel,
    Option<PromptsActionModel>,
) {
    match text {
        None => (PromptsModel::Unchanged, None),
        Some(content) => match parsed(name, content) {
            Ok(prompt) => (
                PromptsModel::Saving { purpose },
                Some(PromptsActionModel::Save { prompt }),
            ),
            Err(error) => (PromptsModel::Failed { error }, None),
        },
    }
}

/// One transition. An event that does not answer what the state waits for
/// changes nothing and asks for nothing.
pub open spec fn step_model(state: PromptsModel, event: PromptsEventModel) -> (
    PromptsModel,
    Option<PromptsActionModel>,
) {
    match (state, event) {
        (PromptsModel::Naming, PromptsEventModel::Named(name)) => (
            PromptsModel::Looking { purpose: Purpose::Create, name },
            Some(PromptsActionModel::Load { name }),
        ),
        (PromptsModel::Looking { purpose, name }, PromptsEventModel::Loaded(found)) => looked_up(
            purpose,
            name,
            found,
        ),
        (PromptsModel::Editing { purpose, name }, PromptsEventModel::Edited(text)) => edited(
            purpose,
            name,
            text,
        ),
        (PromptsModel::Saving { purpose }, PromptsEventModel::Saved) => (
            if purpose == Purpose::Create {
                PromptsModel::Created
            } else {
                PromptsModel::Modified
            },
            None,
        ),
        (PromptsModel::Removing, PromptsEventModel::Removed) => (PromptsModel::Deleted, None),
        (PromptsModel::Listing, PromptsEventModel::LoadedAll(prompts)) => (
            PromptsModel::Listed,
            Some(PromptsActionModel::Show { rows: rows_of(prompts) }),
        ),
        _ => (state, None),
    }
}

/// How the subcommand ended: nothing while it is under way, the error where
/// it failed, success in every other final state.
pub open spec fn outcome_model(state: PromptsModel) -> Option<Result<(), ErrorView>> {
    match state {
        PromptsModel::Created
        | PromptsModel::Modified
        | PromptsModel::Deleted
        | PromptsModel::Listed
        | PromptsModel::Unchanged => Some(Ok(())),
        PromptsModel::Failed { error } => Some(Err(error)),
        _ => None,
    }
}

/// The names of a prompt's values, separated by a comma and a blank.
pub fn variable_names(values: &Vec<PromptValue>) -> (r: String)
    ensures
        r@ == joined_names(crate::config::values_view(values@)),
{
    let ghost all = crate::config::values_view(values@);
    let mut names = String::new();
    let mut done: usize = 0;
    while done < values.len()
        invariant
            done <= values.len(),
            all == crate::config::values_view(values@),
            names@ == joined_names(all.take(done as int)),
        decreases values.len() - done,
    {
        proof {
            let upto = all.take(done + 1);
            assert(upto.drop_last() =~= all.take(done as int));
            assert(upto.last() == values[done as int]@);
            if done == 0 {
                assert(Seq::<char>::empty() + upto[0].0 =~= upto[0].0);
            }
        }
        if done > 0 {
            names.append(", ");
        }
        names.append(values[done].name.as_str());
        done += 1;
    }
    assert(all.take(done as int) =~= all);
    names
}

/// The rows that the table shows for the prompts.
pub fn table_rows(prompts: &Vec<Prompt>) -> (r: Vec<Vec<String>>)
    ensures
        rows_view(r@) == rows_of(prompts_view(prompts@)),
{
    let mut rows: Vec<Vec<String>> = Vec::new();
    let mut done: usize = 0;
    while done < prompts.len()
        invariant
            done <= prompts.len(),
            rows.len() == done,
            forall|k: int| 0 <= k < done ==> row_view(#[trigger] rows[k]) == row_of(prompts[k]@),
        decreases prompts.len() - done,
    {
        let prompt = &prompts[done];
        let mut row: Vec<String> = Vec::new();
        row.push(prompt.name.clone());
        row.push(prompt.content.clone());
        row.push(variable_names(&prompt.values));
        assert(row_view(row) =~= row_of(prompt@));
        rows.push(row);
        done += 1;
    }
    assert(rows_view(rows@) =~= rows_of(prompts_view(prompts@)));
    rows
}

/// Starts the handling of a `prompts` subcommand: the first state, and what
/// the outside has to do first.
pub fn begin(args: PromptsArgs) -> (r: (PromptsState, PromptsAction))
    ensures
        (r.0@, r.1@) == begin_model(args.cmd@),
{
    match args.cmd {
        Command::Create => (PromptsState::Naming, PromptsAction::AskName),
        Command::Edit(args) => {
            let name = args.name.clone();
            (
                PromptsState::Looking { purpose: Purpose::Edit, name: args.name },
                PromptsAction::Load { name },
            )
        },
        Command::List => (PromptsState::Listing, PromptsAction::LoadAll),
        Command::Delete(args) => {
            let name = args.name.clone();
            (
                PromptsState::Looking { purpose: Purpose::Delete, name: args.name },
                PromptsAction::Load { name },
            )
        },
    }
}

/// Takes a `prompts` subcommand one step further: `event` is what the outside
/// reports, the result is the next state and what the outside has to do now,
/// if anything.
pub fn handle_prompts(state: PromptsState, event: PromptsEvent) -> (r: (
    PromptsState,
    Option<PromptsAction>,
))
    ensures
        (r.0@, action_view(r.1)) == step_model(state@, event@),
{
    match (state, event) {
        (PromptsState::Naming, PromptsEvent::Named(name)) => {
            let copy = name.clone();
            (
                PromptsState::Looking { purpose: Purpose::Create, name },
                Some(PromptsAction::Load { name: copy }),
            )
        },
        (PromptsState::Looking { purpose, name }, PromptsEvent::Loaded(found)) => {
            match (purpose, found) {
                (Purpose::Create, Some(_)) => (
                    PromptsState::Failed { error: Error::PromptAlreadyExists { name } },
                    None,
                ),
                (Purpose::Create, None) => (
                    PromptsState::Editing { purpose, name },
                    Some(PromptsAction::OpenEditor { content: String::new() }),
                ),
                (Purpose::Edit, Some(prompt)) => (
                    PromptsState::Editing { purpose, name: prompt.name },
                    Some(PromptsAction::OpenEditor { content: prompt.content }),
                ),
                (Purpose::Delete, Some(_)) => (
                    PromptsState::Removing,
                    Some(PromptsAction::Remove { name }),
                ),
                (_, None) => (
                    PromptsState::Failed { error: Error::PromptNotFound { name } },
                    None,
                ),
            }
        },
        (PromptsState::Editing { purpose, name }, PromptsEvent::Edited(text)) => {
            match text {
                None => (PromptsState::Unchanged, None),
                Some(content) => match parse_prompt(name.as_str(), content.as_str()) {
                    Ok(prompt) => (
                        PromptsState::Saving { purpose },
                        Some(PromptsAction::Save { prompt }),
                    ),
                    Err(error) => (PromptsState::Failed { error }, None),
                },
            }
        },
        (PromptsState::Saving { purpose }, PromptsEvent::Saved) => {
            match purpose {
                Purpose::Create => (PromptsState::Created, None),
                _ => (PromptsState::Modified, None),
            }
        },
        (PromptsState::Removing, PromptsEvent::Removed) => (PromptsState::Deleted, None),
        (PromptsState::Listing, PromptsEvent::LoadedAll(prompts)) => (
            PromptsState::Listed,
            Some(PromptsAction::Show { rows: table_rows(&prompts) }),
        ),
        (state, _) => (state, None),
    }
}

/// How the subcommand ended, once it has: `None` while it is under way.
pub fn outcome(state: &PromptsState) -> (r: Option<Result<(), Error>>)
    ensures
        match r {
            Some(Ok(())) => outcome_model(state@) == Some(Ok::<(), ErrorView>(())),
            Some(Err(error)) => outcome_model(state@) == Some(Err::<(), ErrorView>(error@)),
            None => outcome_model(state@) is None,
        },
{
    match state {
        PromptsState::Created
        | PromptsState::Modified
        | PromptsState::Deleted
        | PromptsState::Listed
        | PromptsState::Unchanged => Some(Ok(())),
        PromptsState::Failed { error } => Some(Err(error.duplicate())),
        _ => None,
    }
}

} // verus!
